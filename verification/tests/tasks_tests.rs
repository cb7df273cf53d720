use xphoto::tasks::{
    age_seconds, check_scan_retry, check_scan_trigger, check_task_retry, dispatch_interval_ms,
    evaluate_task_health, existing_scan_job, race_step, reconcile_action, scan_cancel_action,
    sources_to_retry, stale_after_or_default, status_is_active, task_cancel_plan, task_message,
    DaemonRow, RaceStep, ReconcileAction, ReconcileInput, ScanCancelAction,
};

fn input(status: &str, scan: Option<&str>, scan_status: Option<&str>, age: Option<i64>) -> ReconcileInput {
    ReconcileInput {
        task_status: status.to_string(),
        scan_job_id: scan.map(|s| s.to_string()),
        task_age_seconds: age,
        scan_status: scan_status.map(|s| s.to_string()),
        processed_count: Some(7),
        total_count: Some(9),
        error_message: None,
        finished_at: Some("t".to_string()),
    }
}

#[test]
fn active_statuses() {
    assert!(status_is_active("pending"));
    assert!(status_is_active("running"));
    assert!(!status_is_active("success"));
}

#[test]
fn cancel_rules() {
    assert_eq!(scan_cancel_action("pending"), ScanCancelAction::CancelPending);
    assert_eq!(scan_cancel_action("running"), ScanCancelAction::RequestStop);
    assert_eq!(scan_cancel_action("failed"), ScanCancelAction::Nothing);
    let p = task_cancel_plan("running", Some("pending"));
    assert!(p.proceed);
    assert_eq!(p.scan_action, ScanCancelAction::CancelPending);
    let q = task_cancel_plan("success", Some("running"));
    assert!(!q.proceed);
    assert_eq!(q.scan_action, ScanCancelAction::Nothing);
    assert_eq!(task_cancel_plan("pending", None).scan_action, ScanCancelAction::Nothing);
}

#[test]
fn retry_and_trigger_rules() {
    assert!(check_scan_retry("failed").is_ok());
    assert!(check_scan_retry("cancelled").is_ok());
    assert_eq!(check_scan_retry("running"), Err("仅支持对 failed/cancelled 任务重试".to_string()));
    assert!(check_task_retry("failed", 0, 3).is_ok());
    assert_eq!(check_task_retry("failed", 3, 3), Err("task 已达到最大重试次数".to_string()));
    assert_eq!(check_task_retry("pending", 0, 3), Err("仅 failed/cancelled 任务支持重试".to_string()));
    assert_eq!(check_scan_trigger(None, 0), Err("source 不存在".to_string()));
    assert_eq!(check_scan_trigger(Some(false), 0), Err("source 已禁用，无法扫描".to_string()));
    assert_eq!(
        check_scan_trigger(Some(true), 1),
        Err("当前 source 已有扫描任务在执行或排队".to_string())
    );
    assert!(check_scan_trigger(Some(true), 0).is_ok());
}

#[test]
fn failed_sources_are_retried_unless_busy() {
    let failed = vec!["a".to_string(), "b".to_string(), "c".to_string()];
    let blocked = vec!["b".to_string()];
    assert_eq!(sources_to_retry(&failed, &blocked), vec!["a".to_string(), "c".to_string()]);
    assert_eq!(dispatch_interval_ms(50), 200);
    assert_eq!(dispatch_interval_ms(2000), 2000);
}

#[test]
fn task_that_started_elsewhere() {
    assert_eq!(existing_scan_job("t1", "running", Some("s1".to_string()), None), Ok("s1".to_string()));
    assert_eq!(existing_scan_job("t1", "running", None, Some("s2".to_string())), Ok("s2".to_string()));
    assert_eq!(
        existing_scan_job("t1", "success", None, None),
        Err("task t1 is not pending, status=success".to_string())
    );
    assert!(matches!(race_step("t1", "running", None, None), RaceStep::Wait));
    match race_step("t1", "failed", None, None) {
        RaceStep::Failed(m) => assert_eq!(m, "task t1 moved to terminal status failed without scan job id"),
        _ => panic!("expected failure"),
    }
    assert!(matches!(race_step("t1", "failed", None, Some("s".to_string())), RaceStep::Found(_)));
    assert_eq!(task_message("t9", " done"), "task t9 done");
}

#[test]
fn reconcile_follows_the_scan_job() {
    assert!(matches!(reconcile_action(&input("running", None, None, Some(500)), 120), ReconcileAction::FailStale));
    assert!(matches!(reconcile_action(&input("running", None, None, Some(100)), 120), ReconcileAction::Keep));
    assert!(matches!(reconcile_action(&input("pending", None, None, Some(500)), 120), ReconcileAction::Keep));
    assert!(matches!(reconcile_action(&input("running", None, None, Some(2)), 0), ReconcileAction::FailStale));
    assert!(matches!(
        reconcile_action(&input("running", Some("s"), None, None), 120),
        ReconcileAction::FailMissingScan
    ));
    match reconcile_action(&input("pending", Some("s"), Some("running"), None), 120) {
        ReconcileAction::Follow { scan_job_id, scan_status } => {
            assert_eq!(scan_job_id, "s");
            assert_eq!(scan_status, "running");
        }
        _ => panic!("expected follow"),
    }
    match reconcile_action(&input("running", Some("s"), Some("success"), None), 120) {
        ReconcileAction::Finish { status, progress_done, progress_total, finished_at, .. } => {
            assert_eq!(status, "success");
            assert_eq!(progress_done, 7);
            assert_eq!(progress_total, Some(9));
            assert_eq!(finished_at, Some("t".to_string()));
        }
        _ => panic!("expected finish"),
    }
}

#[test]
fn daemon_health() {
    let rows = vec![
        DaemonRow {
            id: "d1".to_string(),
            task_type: "dispatcher".to_string(),
            status: "running".to_string(),
            heartbeat_at: Some("h".to_string()),
            heartbeat_age_seconds: Some(3),
        },
        DaemonRow {
            id: "d2".to_string(),
            task_type: "watcher".to_string(),
            status: "running".to_string(),
            heartbeat_at: None,
            heartbeat_age_seconds: None,
        },
    ];
    let h = evaluate_task_health(&rows, 15);
    assert!(!h.healthy);
    assert!(h.daemon_tasks[0].healthy);
    assert!(!h.daemon_tasks[1].healthy);
    assert!(evaluate_task_health(&rows[0..1].to_vec(), 15).healthy);
    assert!(!evaluate_task_health(&rows[0..1].to_vec(), 2).healthy);
    assert_eq!(stale_after_or_default(None), 15);
    assert_eq!(stale_after_or_default(Some(0)), 1);
    assert_eq!(stale_after_or_default(Some(60)), 60);
}

#[test]
fn ages_are_whole_seconds_between_times() {
    let then = Some("2026-04-25T10:00:00+00:00".to_string());
    assert_eq!(age_seconds(&then, "2026-04-25T10:01:30+00:00"), Some(90));
    // offsets are taken into account
    let then = Some("2026-04-25T12:00:00+02:00".to_string());
    assert_eq!(age_seconds(&then, "2026-04-25T10:00:05Z"), Some(5));
    // a time in the future gives a negative age, truncated toward zero
    let then = Some("2026-04-25T10:00:01.500+00:00".to_string());
    assert_eq!(age_seconds(&then, "2026-04-25T10:00:00+00:00"), Some(-1));
    let then = Some("2026-04-25T10:00:00.500+00:00".to_string());
    assert_eq!(age_seconds(&then, "2026-04-25T10:00:00+00:00"), Some(0));
    assert_eq!(age_seconds(&Some("yesterday".to_string()), "2026-04-25T10:00:00Z"), None);
    assert_eq!(age_seconds(&None, "2026-04-25T10:00:00Z"), None);
}

#[test]
fn limits_are_at_least_one() {
    assert_eq!(xphoto::tasks::at_least_one(0), 1);
    assert_eq!(xphoto::tasks::at_least_one(4), 4);
}
