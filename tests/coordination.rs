use perf_testing::connection::{ReconnectStep, StoreConnection};
use perf_testing::information::InformationLoop;
use perf_testing::outcomes::{
    contains_text, keys_with_prefix, lock_project, summarize_kills, summarize_replies,
    summarize_stops, WorkerAnswer,
};
use perf_testing::registry::{is_lifecycle_event_text, SubscriptionRegistry, Unsubscribed};

#[test]
fn connection_recovers_after_outage() {
    let mut c = StoreConnection::connected();
    assert!(c.is_healthy());
    assert!(!c.on_operation(true));
    assert!(c.on_operation(false));
    assert!(!c.is_healthy());
    assert!(c.is_reconnecting());
    assert!(!c.on_operation(false));
    assert_eq!(c.on_attempt(false), ReconnectStep::RetryLater);
    assert_eq!(c.on_attempt(false), ReconnectStep::RetryLater);
    assert_eq!(c.on_attempt(true), ReconnectStep::Install);
    assert!(c.is_healthy());
    assert!(!c.is_reconnecting());
}

#[test]
fn shutdown_stops_the_reconnection_loop() {
    let mut c = StoreConnection::connected();
    assert!(!c.shutdown());
    let mut d = StoreConnection::connected();
    assert!(d.on_operation(false));
    assert!(d.shutdown());
    assert_eq!(d.on_attempt(true), ReconnectStep::Stop);
    assert!(!d.is_reconnecting());
    assert!(!d.on_operation(false));
}

#[test]
fn balanced_subscriptions_leave_no_topic() {
    let mut reg: SubscriptionRegistry<u32> = SubscriptionRegistry::new();
    let mut active: Vec<String> = Vec::new();
    for i in 0..3 {
        match reg.subscribe("p]$[s.py", i) {
            Some(true) => active.push("p]$[s.py".to_string()),
            Some(false) => {}
            None => panic!("refused"),
        }
    }
    assert_eq!(active.len(), 1);
    assert_eq!(reg.count("p]$[s.py"), 3);
    assert_eq!(reg.channel("p]$[s.py"), Some(&0));
    assert_eq!(reg.unsubscribe("p]$[s.py"), Unsubscribed::Remaining(2));
    assert_eq!(reg.unsubscribe("p]$[s.py"), Unsubscribed::Remaining(1));
    assert_eq!(reg.unsubscribe("p]$[s.py"), Unsubscribed::Removed);
    active.retain(|t| t != "p]$[s.py");
    assert!(active.is_empty());
    assert!(!reg.contains("p]$[s.py"));
    assert_eq!(reg.count("p]$[s.py"), 0);
    assert_eq!(reg.unsubscribe("p]$[s.py"), Unsubscribed::Unknown);
}

#[test]
fn topics_are_counted_apart() {
    let mut reg: SubscriptionRegistry<u32> = SubscriptionRegistry::new();
    assert_eq!(reg.subscribe("a", 1), Some(true));
    assert_eq!(reg.subscribe("b", 2), Some(true));
    assert_eq!(reg.subscribe("a", 3), Some(false));
    assert_eq!(reg.count("a"), 2);
    assert_eq!(reg.count("b"), 1);
    let mut topics = reg.topic_list();
    topics.sort();
    assert_eq!(topics, vec!["a".to_string(), "b".to_string()]);
}

#[test]
fn bridge_routes_lifecycle_events_to_watched_topics() {
    let mut reg: SubscriptionRegistry<u32> = SubscriptionRegistry::new();
    reg.subscribe("p]$[s.py", 9);
    assert_eq!(reg.route("UPDATE", "p]$[s.py"), Some(&9));
    assert_eq!(reg.route("TEST_STARTED", "p]$[s.py"), Some(&9));
    assert_eq!(reg.route("TEST_STOPPED", "p]$[s.py"), Some(&9));
    assert_eq!(reg.route("PROJECTS", "p]$[s.py"), None);
    assert_eq!(reg.route("UPDATE", "p]$[gone.py"), None);
    assert!(is_lifecycle_event_text("UPDATE"));
    assert!(!is_lifecycle_event_text("TEST_DELETED"));
}

#[test]
fn second_lock_of_a_project_is_refused() {
    let mut locked: Vec<String> = Vec::new();
    assert!(lock_project(&locked, "P"));
    locked.push("P".to_string());
    assert!(!lock_project(&locked, "P"));
    assert!(lock_project(&locked, "Q"));
    locked.retain(|p| p != "P");
    assert!(lock_project(&locked, "P"));
}

#[test]
fn text_membership() {
    let v = vec!["x".to_string(), "y".to_string()];
    assert!(contains_text(&v, "y"));
    assert!(!contains_text(&v, "z"));
}

#[test]
fn prefix_selects_runs_of_a_script() {
    let keys = vec![
        "p]$[a.py]$[1".to_string(),
        "q]$[a.py]$[2".to_string(),
        "p]$[a.py]$[3".to_string(),
        "p]$[b.py]$[4".to_string(),
    ];
    assert_eq!(
        keys_with_prefix(&keys, "p]$[a.py"),
        vec!["p]$[a.py]$[1".to_string(), "p]$[a.py]$[3".to_string()]
    );
    assert_eq!(keys_with_prefix(&keys, "p").len(), 3);
    assert_eq!(keys_with_prefix(&keys, "").len(), 4);
    assert!(keys_with_prefix(&keys, "zzz").is_empty());
}

#[test]
fn kill_summary_lists_failures() {
    let (ok, err) = summarize_kills(&vec![("a".to_string(), true), ("b".to_string(), true)]);
    assert!(ok);
    assert_eq!(err, "");
    let (ok, err) = summarize_kills(&vec![
        ("a".to_string(), false),
        ("b".to_string(), true),
        ("c".to_string(), false),
    ]);
    assert!(!ok);
    assert_eq!(err, "test: [a] could not be killed!\ntest: [c] could not be killed!\n");
}

#[test]
fn fan_out_summary_reports_each_worker() {
    let r = summarize_replies(&vec![
        ("w1:3000".to_string(), Some("{\"success\":true}".to_string())),
        ("w2:3000".to_string(), None),
    ]);
    assert!(!r.success);
    assert_eq!(r.error, "Could not connect to worker [w2:3000]\n");
    assert_eq!(
        r.contents,
        vec![
            ("w1:3000".to_string(), "{\"success\":true}".to_string()),
            ("w2:3000".to_string(), "Could not connect to worker".to_string()),
        ]
    );
    let all = summarize_replies(&vec![("w1".to_string(), Some("ok".to_string()))]);
    assert!(all.success);
    assert_eq!(all.error, "");
}

#[test]
fn many_subscribers_then_all_leave() {
    let mut reg: SubscriptionRegistry<u32> = SubscriptionRegistry::new();
    reg.subscribe("other", 0);
    let n = 25;
    let mut joined = 0;
    for i in 0..n {
        if reg.subscribe("t", i) == Some(true) {
            joined += 1;
        }
    }
    assert_eq!(joined, 1);
    assert_eq!(reg.count("t"), n);
    let mut removed = 0;
    for _ in 0..n {
        if reg.unsubscribe("t") == Unsubscribed::Removed {
            removed += 1;
        }
    }
    assert_eq!(removed, 1);
    assert!(!reg.contains("t"));
    assert_eq!(reg.count("other"), 1);
}

fn answer(success: bool, error: &str) -> Option<WorkerAnswer> {
    Some(WorkerAnswer { text: format!("reply {}", success), success, error: error.to_string() })
}

#[test]
fn stop_report_fails_on_a_failed_answer() {
    let r = summarize_stops(&vec![
        ("w1".to_string(), answer(true, "")),
        ("w2".to_string(), answer(false, "test: [k] could not be killed!")),
        ("w3".to_string(), None),
    ]);
    assert!(!r.success);
    assert_eq!(
        r.error,
        "test: [k] could not be killed!\nCould not connect to worker [w3]\n"
    );
    assert_eq!(
        r.contents,
        vec![
            ("w1".to_string(), "reply true".to_string()),
            ("w2".to_string(), "reply false".to_string()),
            ("w3".to_string(), "Could not connect to worker".to_string()),
        ]
    );
}

#[test]
fn stop_report_succeeds_when_every_worker_stopped() {
    let r = summarize_stops(&vec![("w1".to_string(), answer(true, "")), ("w2".to_string(), answer(true, ""))]);
    assert!(r.success);
    assert_eq!(r.error, "");
    let none = summarize_stops(&vec![]);
    assert!(none.success);
}

#[test]
fn information_loop_runs_while_clients_are_connected() {
    let mut info = InformationLoop::new();
    assert!(info.on_connect());
    assert!(!info.on_connect());
    assert_eq!(info.client_count(), 2);
    let installing = vec!["p".to_string()];
    let e = info.tick(3, &installing).expect("event");
    assert_eq!(e.connected_clients_count, 2);
    assert_eq!(e.running_tests_count, 3);
    assert_eq!(e.installing_projects, installing);
    info.on_disconnect();
    info.on_disconnect();
    info.on_disconnect();
    assert_eq!(info.client_count(), 0);
    assert!(info.tick(0, &vec![]).is_none());
    assert!(info.on_connect());
}
