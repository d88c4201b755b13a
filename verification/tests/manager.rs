use merco::errors::AppError;
use merco::handlers::CreateFetchTaskRequest;
use merco::strategy::{can_add_member, strategy_artifact_stem, StrategyManager};
use merco::tasks::manager::TaskManager;
use merco::tasks::types::{TaskConfig, TaskEvent, TaskStatus, TaskType};
use merco::timeframe::Timeframe;

fn fetch_config() -> TaskConfig {
    TaskConfig::FetchCandles {
        symbol: "Y/Z".to_string(),
        exchange: "X".to_string(),
        timeframe: Timeframe::M1,
        start_date: None,
        end_date: None,
    }
}

#[test]
fn create_task_registers_pending_task() {
    let mut m = TaskManager::new();
    let ev = m.create_task_at(7, fetch_config(), 1000).unwrap();
    match ev {
        TaskEvent::Create { task } => {
            assert_eq!(task.id, 7);
            assert_eq!(task.status, TaskStatus::Pending);
            assert_eq!(task.progress, 0);
            assert_eq!(task.task_type, TaskType::FetchCandles);
            assert_eq!(task.created_at, 1000);
            assert!(task.started_at.is_none());
        },
        _ => panic!("expected a Create event"),
    }
    assert_eq!(m.get_all_tasks().len(), 1);
    assert!(m.get_task(7).is_some());
    assert!(m.get_task(8).is_none());
}

#[test]
fn create_task_rejects_duplicate_id() {
    let mut m = TaskManager::new();
    m.create_task_at(7, fetch_config(), 1000).unwrap();
    let e = m.create_task_at(7, fetch_config(), 2000).unwrap_err();
    match e {
        AppError::Internal(_) => {},
        _ => panic!("expected an internal error"),
    }
    assert_eq!(m.get_all_tasks().len(), 1);
}

#[test]
fn create_task_draws_a_fresh_id() {
    let mut m = TaskManager::new();
    let (id1, _) = m.create_task(fetch_config()).unwrap();
    let (id2, _) = m.create_task(fetch_config()).unwrap();
    assert_ne!(id1, id2);
    assert_eq!(m.get_all_tasks().len(), 2);
}

#[test]
fn lifecycle_runs_pending_running_completed() {
    let mut m = TaskManager::new();
    m.create_task_at(1, fetch_config(), 1000).unwrap();

    let ev = m.update_status(1, TaskStatus::Running, 2000).unwrap();
    match ev {
        TaskEvent::Status { task_id, status } => {
            assert_eq!(task_id, 1);
            assert_eq!(status, TaskStatus::Running);
        },
        _ => panic!("expected a Status event"),
    }
    let t = m.get_task(1).unwrap();
    assert_eq!(t.status, TaskStatus::Running);
    assert_eq!(t.started_at, Some(2000));

    let ev = m.update_progress(1, 40, 3000).unwrap();
    match ev {
        TaskEvent::Progress { task_id, progress, status } => {
            assert_eq!(task_id, 1);
            assert_eq!(progress, 40);
            assert_eq!(status, TaskStatus::Running);
        },
        _ => panic!("expected a Progress event"),
    }

    let ev = m.complete_task(1, None, 4000).unwrap();
    match ev {
        TaskEvent::Complete { task_id, result } => {
            assert_eq!(task_id, 1);
            assert!(result.is_none());
        },
        _ => panic!("expected a Complete event"),
    }
    let t = m.get_task(1).unwrap();
    assert_eq!(t.status, TaskStatus::Completed);
    assert_eq!(t.progress, 100);
    assert_eq!(t.completed_at, Some(4000));
}

#[test]
fn terminal_task_never_changes() {
    let mut m = TaskManager::new();
    m.create_task_at(1, fetch_config(), 1000).unwrap();
    m.update_status(1, TaskStatus::Running, 2000).unwrap();
    m.complete_task(1, None, 3000).unwrap();

    assert!(m.update_progress(1, 10, 4000).is_none());
    assert!(m.update_status(1, TaskStatus::Running, 4000).is_none());
    assert!(m.fail_task(1, "late".to_string(), 4000).is_none());
    assert!(m.complete_task(1, None, 4000).is_none());

    let t = m.get_task(1).unwrap();
    assert_eq!(t.status, TaskStatus::Completed);
    assert_eq!(t.progress, 100);
    assert_eq!(t.updated_at, 3000);
}

#[test]
fn failed_task_records_the_error() {
    let mut m = TaskManager::new();
    m.create_task_at(1, fetch_config(), 1000).unwrap();
    m.update_status(1, TaskStatus::Running, 2000).unwrap();
    let ev = m.fail_task(1, "boom".to_string(), 3000).unwrap();
    match ev {
        TaskEvent::Fail { task_id, error } => {
            assert_eq!(task_id, 1);
            assert_eq!(error, "boom");
        },
        _ => panic!("expected a Fail event"),
    }
    let t = m.get_task(1).unwrap();
    assert_eq!(t.status, TaskStatus::Failed);
    assert_eq!(t.error_message.as_deref(), Some("boom"));
}

#[test]
fn only_running_is_accepted_as_a_status_update() {
    let mut m = TaskManager::new();
    m.create_task_at(1, fetch_config(), 1000).unwrap();
    assert!(m.update_status(1, TaskStatus::Completed, 2000).is_none());
    assert!(m.update_status(1, TaskStatus::Pending, 2000).is_none());
    assert_eq!(m.get_task(1).unwrap().status, TaskStatus::Pending);
}

#[test]
fn updated_at_never_goes_backwards() {
    let mut m = TaskManager::new();
    m.create_task_at(1, fetch_config(), 1000).unwrap();
    m.update_progress(1, 10, 5000).unwrap();
    assert_eq!(m.get_task(1).unwrap().updated_at, 5000);
    // a clock that jumped backwards does not rewind the task
    m.update_progress(1, 20, 4000).unwrap();
    assert_eq!(m.get_task(1).unwrap().updated_at, 5000);
}

#[test]
fn progress_never_decreases() {
    let mut m = TaskManager::new();
    m.create_task_at(1, fetch_config(), 1000).unwrap();
    m.update_progress(1, 50, 2000).unwrap();
    assert_eq!(m.get_task(1).unwrap().progress, 50);
    // a late, smaller report is ignored; the event repeats 50
    let ev = m.update_progress(1, 30, 3000).unwrap();
    match ev {
        TaskEvent::Progress { progress, .. } => assert_eq!(progress, 50),
        _ => panic!("expected a Progress event"),
    }
    assert_eq!(m.get_task(1).unwrap().progress, 50);
    m.update_progress(1, 80, 4000).unwrap();
    assert_eq!(m.get_task(1).unwrap().progress, 80);
}

#[test]
fn events_observed_in_lifecycle_order() {
    let mut m = TaskManager::new();
    let mut events: Vec<TaskEvent> = Vec::new();
    events.push(m.create_task_at(1, fetch_config(), 1000).unwrap());
    events.push(m.update_status(1, TaskStatus::Running, 2000).unwrap());
    events.push(m.update_progress(1, 50, 3000).unwrap());
    events.push(m.complete_task(1, None, 4000).unwrap());
    // Create first, terminal last and only once
    assert!(matches!(events[0], TaskEvent::Create { .. }));
    for e in &events[1..] {
        assert!(!matches!(e, TaskEvent::Create { .. }));
    }
    for e in &events[..3] {
        assert!(!matches!(e, TaskEvent::Complete { .. } | TaskEvent::Fail { .. }));
    }
    assert!(matches!(events[3], TaskEvent::Complete { .. }));
}

#[test]
fn fetch_request_becomes_a_config() {
    let req = CreateFetchTaskRequest {
        symbol: "Y/Z".to_string(),
        exchange: "X".to_string(),
        timeframe: Timeframe::M5,
        start: Some(123),
        end: None,
    };
    match req.into_config() {
        TaskConfig::FetchCandles { symbol, exchange, timeframe, start_date, end_date } => {
            assert_eq!(symbol, "Y/Z");
            assert_eq!(exchange, "X");
            assert_eq!(timeframe, Timeframe::M5);
            assert_eq!(start_date, Some(123));
            assert_eq!(end_date, None);
        },
        _ => panic!("expected a fetch configuration"),
    }
}

#[test]
fn artifact_stem_replaces_hyphens() {
    assert_eq!(strategy_artifact_stem("my-neat-strategy"), "my_neat_strategy");
    assert_eq!(strategy_artifact_stem("plain"), "plain");
    assert_eq!(strategy_artifact_stem(""), "");
    assert_eq!(strategy_artifact_stem("-x-"), "_x_");
}

#[test]
fn member_list_rejects_duplicates() {
    let members = vec!["alpha".to_string(), "beta".to_string()];
    assert!(!can_add_member(&members, "alpha"));
    assert!(can_add_member(&members, "gamma"));
    let manager = StrategyManager::new("strategies".to_string());
    assert_eq!(manager.workspace_dir, "strategies");
}
