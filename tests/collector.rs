use perf_testing::collector::{
    disk_work, install_status_code, is_watched, status_error, test_status_code, Cleanup,
    CollectorKind, DiskWork, Observation, RunStatus, StatusEntry, TaskTable,
    watched_run,
};
use perf_testing::guard::CollectorGuard;
use perf_testing::keys::encode_test_id;
use perf_testing::task::{ProcessRef, ProcessStep, Task};

fn single(key: &str, handle: u32) -> Task<u32> {
    Task::NormalTask(handle, key.to_string())
}

#[test]
fn single_task_kill_is_coordinator_only() {
    let t = single("k", 1);
    assert_eq!(t.kill_steps(), vec![ProcessStep::Kill(ProcessRef::Coordinator)]);
    assert_eq!(t.kill_children_steps(), vec![]);
    assert_eq!(t.id(), "k");
}

#[test]
fn grouped_task_kills_members_before_coordinator() {
    let t: Task<u32> = Task::MasterTask(0, vec![1, 2, 3], "k".to_string());
    assert_eq!(t.member_count(), 3);
    assert_eq!(
        t.kill_steps(),
        vec![
            ProcessStep::Kill(ProcessRef::Member(0)),
            ProcessStep::Wait(ProcessRef::Member(0)),
            ProcessStep::Kill(ProcessRef::Member(1)),
            ProcessStep::Wait(ProcessRef::Member(1)),
            ProcessStep::Kill(ProcessRef::Member(2)),
            ProcessStep::Wait(ProcessRef::Member(2)),
            ProcessStep::Kill(ProcessRef::Coordinator),
        ]
    );
    assert_eq!(
        t.kill_children_steps(),
        vec![
            ProcessStep::Kill(ProcessRef::Member(0)),
            ProcessStep::Wait(ProcessRef::Member(0)),
            ProcessStep::Kill(ProcessRef::Member(1)),
            ProcessStep::Wait(ProcessRef::Member(1)),
            ProcessStep::Kill(ProcessRef::Member(2)),
            ProcessStep::Wait(ProcessRef::Member(2)),
        ]
    );
}

#[test]
fn table_refuses_a_second_task_under_one_key() {
    let mut table: TaskTable<u32> = TaskTable::new();
    assert!(table.insert("a".to_string(), single("a", 1)).is_ok());
    let refused = table.insert("a".to_string(), single("a", 2));
    match refused {
        Err(Task::NormalTask(h, _)) => assert_eq!(h, 2),
        _ => panic!("duplicate key accepted"),
    }
    assert_eq!(table.len(), 1);
    assert!(table.contains_key("a"));
    assert!(!table.contains_key("b"));
}

#[test]
fn table_remove_and_get_mut() {
    let mut table: TaskTable<u32> = TaskTable::new();
    table.insert("a".to_string(), single("a", 1)).ok();
    table.insert("b".to_string(), single("b", 2)).ok();
    match table.get_mut("b") {
        Some(Task::NormalTask(h, _)) => *h = 20,
        _ => panic!("missing task"),
    }
    assert!(table.get_mut("c").is_none());
    match table.remove("b") {
        Some(Task::NormalTask(h, _)) => assert_eq!(h, 20),
        _ => panic!("missing task"),
    }
    assert!(table.remove("b").is_none());
    assert_eq!(table.key_list(), vec!["a".to_string()]);
}

#[test]
fn sweep_removes_a_run_that_succeeded() {
    let key = encode_test_id("p", "s.py", "1");
    let mut table: TaskTable<u32> = TaskTable::new();
    table.insert(key.clone(), single(&key, 1)).ok();
    let first = table.sweep(vec![Observation::Running]);
    assert_eq!(table.len(), 1);
    assert!(matches!(first.statuses[0].status, RunStatus::Running));
    assert!(first.finished.is_empty());
    let second = table.sweep(vec![Observation::Exited(0, None)]);
    assert!(table.is_empty());
    assert_eq!(second.statuses.len(), 1);
    assert_eq!(second.statuses[0].key, key);
    assert!(matches!(second.statuses[0].status, RunStatus::Succeeded));
    assert_eq!(second.finished.len(), 1);
    assert_eq!(second.finished[0].key, key);
    assert_eq!(second.finished[0].cleanup, Cleanup::Relocate);
    let third = table.sweep(vec![]);
    assert!(third.statuses.is_empty());
}

#[test]
fn sweep_reports_a_failed_run_with_its_error_text() {
    let key = encode_test_id("p", "s.py", "2");
    let mut table: TaskTable<u32> = TaskTable::new();
    table.insert(key.clone(), single(&key, 1)).ok();
    let report = table.sweep(vec![Observation::Exited(1, Some("boom".to_string()))]);
    assert!(table.is_empty());
    assert_eq!(report.finished[0].cleanup, Cleanup::DeleteStaged);
    match &report.statuses[0].status {
        RunStatus::FailedExitCode(code, Some(text)) => {
            assert_eq!(*code, 1);
            assert_eq!(text, "boom");
        }
        _ => panic!("wrong status"),
    }
}

#[test]
fn sweep_keeps_running_and_unpolled_tasks_in_order() {
    let mut table: TaskTable<u32> = TaskTable::new();
    for (i, k) in ["a", "b", "c", "d"].iter().enumerate() {
        table.insert(k.to_string(), single(k, i as u32)).ok();
    }
    let report = table.sweep(vec![
        Observation::Running,
        Observation::Signaled,
        Observation::Unobservable,
        Observation::Exited(3, None),
    ]);
    assert_eq!(table.key_list(), vec!["a".to_string(), "c".to_string()]);
    assert_eq!(report.statuses.len(), 4);
    assert!(matches!(report.statuses[1].status, RunStatus::FailedSignal));
    assert!(matches!(report.statuses[2].status, RunStatus::Running));
    assert!(matches!(report.statuses[3].status, RunStatus::FailedExitCode(3, None)));
    let finished: Vec<(String, Cleanup)> =
        report.finished.iter().map(|f| (f.key.clone(), f.cleanup)).collect();
    assert_eq!(
        finished,
        vec![("b".to_string(), Cleanup::Nothing), ("d".to_string(), Cleanup::DeleteStaged)]
    );
}

#[test]
fn status_codes() {
    assert_eq!(install_status_code(&RunStatus::Running), 0);
    assert_eq!(install_status_code(&RunStatus::Succeeded), 1);
    assert_eq!(install_status_code(&RunStatus::FailedSignal), 2);
    assert_eq!(install_status_code(&RunStatus::FailedExitCode(1, None)), 2);
    assert_eq!(test_status_code(&RunStatus::Running), 0);
    assert_eq!(test_status_code(&RunStatus::FailedSignal), 1);
    assert_eq!(test_status_code(&RunStatus::Succeeded), 1);
}

#[test]
fn watched_runs() {
    let key = encode_test_id("p", "s.py", "1");
    assert!(is_watched(&key, &vec!["p]$[s.py".to_string()]));
    assert!(is_watched(&key, &vec!["all".to_string()]));
    assert!(!is_watched(&key, &vec!["p]$[other.py".to_string()]));
    assert!(!is_watched(&key, &vec![]));
    assert!(!is_watched("nodelimiter", &vec!["nodelimiter".to_string()]));
}

#[test]
fn many_start_requests_spawn_one_loop() {
    let mut guard = CollectorGuard::new();
    assert!(!guard.running());
    let spawned: Vec<bool> = (0..8).map(|_| guard.try_start()).collect();
    assert_eq!(spawned.iter().filter(|s| **s).count(), 1);
    assert!(spawned[0]);
    assert!(guard.running());
    assert!(!guard.stop_if_idle(false));
    assert!(guard.running());
    assert!(guard.stop_if_idle(true));
    assert!(!guard.running());
    assert!(guard.try_start());
}

#[test]
fn disk_work_per_collector() {
    assert_eq!(disk_work(CollectorKind::Installs, Cleanup::Relocate), DiskWork::MoveToProjects);
    assert_eq!(disk_work(CollectorKind::Installs, Cleanup::DeleteStaged), DiskWork::DeleteStagedProject);
    assert_eq!(disk_work(CollectorKind::Runs, Cleanup::DeleteStaged), DiskWork::DeleteRunResults);
    assert_eq!(disk_work(CollectorKind::Runs, Cleanup::Relocate), DiskWork::Nothing);
    assert_eq!(disk_work(CollectorKind::Installs, Cleanup::Nothing), DiskWork::Nothing);
}

#[test]
fn error_text_of_statuses() {
    assert_eq!(status_error(&RunStatus::FailedExitCode(1, Some("boom".to_string()))), Some("boom".to_string()));
    assert_eq!(status_error(&RunStatus::FailedExitCode(1, None)), None);
    assert_eq!(status_error(&RunStatus::Succeeded), None);
}

#[test]
fn watched_run_lines() {
    let key = encode_test_id("p", "s.py", "9");
    let entry = StatusEntry { key: key.clone(), status: RunStatus::FailedExitCode(2, Some("bad".to_string())) };
    let w = watched_run(&entry, &vec!["p]$[s.py".to_string()]).expect("watched");
    assert_eq!(w.topic, "p]$[s.py");
    assert_eq!(w.run_id, "9");
    assert_eq!(w.status, 1);
    assert_eq!(w.error, Some("bad".to_string()));
    assert!(watched_run(&entry, &vec!["q]$[s.py".to_string()]).is_none());
    let odd = StatusEntry { key: "a]$[b".to_string(), status: RunStatus::Running };
    assert!(watched_run(&odd, &vec!["all".to_string()]).is_none());
}
