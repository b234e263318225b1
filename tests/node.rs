use perf_testing::commands::{
    build_coordinator_command, build_member_command, build_run_command, member_count,
};
use perf_testing::models::{get_worker_ip, ErrorResponse, TestInfo};
use perf_testing::node::{
    after_probe, get_a_free_port, is_script_name, project_name_of, sanitize_file_name, upload_project_name, PortProbe,
};

#[test]
fn upload_name_replaces_whitespace() {
    assert_eq!(upload_project_name("my project/locust/a.py"), Some("my_project".to_string()));
    assert_eq!(upload_project_name("a \t b/x"), Some("a_b".to_string()));
    assert_eq!(upload_project_name("plain/x"), Some("plain".to_string()));
    assert_eq!(upload_project_name("/abs"), None);
}

#[test]
fn first_component_of_upload_path() {
    assert_eq!(project_name_of("proj/locust/a.py"), Some("proj"));
    assert_eq!(project_name_of("proj"), Some("proj"));
    assert_eq!(project_name_of(""), None);
    assert_eq!(project_name_of("/x"), None);
}

#[test]
fn free_port_is_in_search_range() {
    match get_a_free_port() {
        Ok(p) => assert!(p > 5000 && p <= 50001),
        Err(e) => assert_eq!(e, "No free port found!"),
    }
}

#[test]
fn run_command_with_defaults() {
    let c = build_run_command("/env/bin/locust", "/p/s.py", None, Some(5), None, &Some("http://h".to_string()), "log", "csv");
    assert_eq!(
        c,
        "/env/bin/locust -f /p/s.py --headless --users 1 --spawn-rate 5  --host http://h --logfile log --csv csv"
    );
}

#[test]
fn run_command_with_duration() {
    let c = build_run_command("l", "s", Some(10), None, Some(30), &None, "g", "c");
    assert_eq!(c, "l -f s --headless --users 10 --spawn-rate 1 --run-time 30s  --logfile g --csv c");
}

#[test]
fn grouped_run_commands() {
    assert_eq!(
        build_coordinator_command("RUN", 5001, 4),
        "RUN --master --master-bind-port=5001 --expect-workers 4"
    );
    assert_eq!(
        build_member_command("l", "s", "w.log", 5001, 2, true),
        "l -f s --logfile w.log --worker --master-port=5001 --worker-id=2"
    );
    assert_eq!(
        build_member_command("l", "s", "w.log", 5001, 2, false),
        "l -f s --logfile w.log --worker --master-port=5001 "
    );
    assert_eq!(member_count(Some(3)), 3);
    assert_eq!(member_count(None), 0);
}

#[test]
fn error_response_is_a_failure() {
    let r = ErrorResponse::new("disk full");
    assert!(!r.success);
    assert_eq!(r.message, "Server Error");
    assert_eq!(r.error, "disk full");
}

#[test]
fn worker_ip_comes_from_run_info() {
    let mut info = TestInfo {
        project_id: Some("p".to_string()),
        script_id: Some("s".to_string()),
        users: None,
        spawn_rate: None,
        workers: None,
        host: None,
        time: None,
        description: None,
        id: Some("1".to_string()),
        worker_ip: Some("10.0.0.2:3000".to_string()),
    };
    assert_eq!(get_worker_ip(&info), Some("10.0.0.2:3000".to_string()));
    info.worker_ip = None;
    assert_eq!(get_worker_ip(&info), None);
}

#[test]
fn listed_scripts_have_py_or_no_extension() {
    assert!(is_script_name("load.py"));
    assert!(is_script_name("Makefile"));
    assert!(is_script_name(".hidden"));
    assert!(is_script_name("a.b.py"));
    assert!(!is_script_name("a.py.txt"));
    assert!(!is_script_name("notes.txt"));
    assert!(!is_script_name("trailing."));
}

#[test]
fn sanitized_upload_names() {
    assert_eq!(sanitize_file_name("my  project/a b.py"), "my_project/a_b.py");
    assert_eq!(sanitize_file_name("plain"), "plain");
}

#[test]
fn port_search_decisions() {
    assert_eq!(after_probe(5001, true), PortProbe::Take(5001));
    assert_eq!(after_probe(5001, false), PortProbe::Next);
    assert_eq!(after_probe(50000, false), PortProbe::Next);
    assert_eq!(after_probe(50001, false), PortProbe::GiveUp);
    assert_eq!(after_probe(50001, true), PortProbe::Take(50001));
}
