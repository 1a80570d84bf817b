use eve_metrade::jobs::{
    decide_start, effective_stale_timeout, fail_stale, finish_failed, finish_succeeded, heartbeat,
    idle_refresh_job, item_error, needs_stale_check, queue_drained, record_progress,
    record_queued_failure, stale_timeout_seconds, start_job, start_queued, StartDecision,
};

#[test]
fn a_missing_job_is_idle() {
    let job = idle_refresh_job(3);
    assert_eq!(job.status, "idle");
    assert_eq!(job.queued_count, 3);
    assert_eq!(job.scanned_count, 0);
    assert!(job.started_at.is_empty());
}

#[test]
fn start_requests_while_running() {
    assert_eq!(decide_start("idle", "batch", None), Ok(StartDecision::Start));
    assert_eq!(decide_start("done", "product", None), Ok(StartDecision::Start));
    assert_eq!(decide_start("running", "batch", None), Ok(StartDecision::KeepCurrent));
    assert_eq!(decide_start("running", "product", Some(34)), Ok(StartDecision::Enqueue(34)));
    assert_eq!(decide_start("running", "product", None), Err("Missing product type ID".to_string()));
}

#[test]
fn progress_only_moves_a_running_job() {
    let job = start_job("batch".to_string(), 0, "2024-01-01T00:00:00Z");
    assert_eq!(job.status, "running");
    assert_eq!(job.started_at, "2024-01-01T00:00:00Z");
    let job = record_progress(job, "Tritanium", 1, 5, 2, "", Some(4), "2024-01-01T00:00:05Z");
    assert_eq!(job.current_item, "Tritanium");
    assert_eq!((job.scanned_count, job.total_count, job.api_calls, job.queued_count), (1, 5, 2, 4));
    assert_eq!(job.last_progress_at, "2024-01-01T00:00:05Z");
    let job = record_progress(job, "Pyerite", 2, 5, 4, "34: boom", None, "2024-01-01T00:00:09Z");
    assert_eq!(job.last_error, "34: boom");
    assert_eq!(job.queued_count, 4);
    let job = record_progress(job, "Mexallon", 3, 5, 6, "", None, "2024-01-01T00:00:10Z");
    assert_eq!(job.last_error, "34: boom");

    let done = finish_succeeded(job, 9, String::new(), 0, "2024-01-01T00:01:00Z");
    assert_eq!(done.status, "done");
    assert_eq!(done.last_error, "34: boom");
    assert_eq!(done.current_item, "");
    let untouched = record_progress(done, "X", 9, 9, 9, "e", Some(1), "later");
    assert_eq!(untouched.status, "done");
    assert_eq!(untouched.current_item, "");
    assert_eq!(untouched.finished_at, "2024-01-01T00:01:00Z");
}

#[test]
fn finishing_and_queue_transitions() {
    let job = start_job("reset".to_string(), 2, "t0");
    let failed = finish_failed(job, "network down".to_string(), 2, "t1");
    assert_eq!(failed.status, "failed");
    assert_eq!(failed.last_error, "network down");
    assert_eq!(failed.finished_at, "t1");

    let next = start_queued(failed, "product".to_string(), 1, "t2");
    assert_eq!(next.status, "running");
    assert_eq!((next.scanned_count, next.total_count, next.queued_count), (0, 1, 1));
    assert_eq!(next.finished_at, "");
    let next = record_queued_failure(next, 587, "ESI 500 for url");
    assert_eq!(next.last_error, "587: ESI 500 for url");
    let drained = queue_drained(next, "t3");
    assert_eq!(drained.status, "done");
    assert_eq!(drained.kind, "");
    assert_eq!(drained.queued_count, 0);
    assert_eq!(item_error(-1, ""), "-1: ");
}

#[test]
fn stale_timeouts() {
    assert_eq!(stale_timeout_seconds("600"), 600);
    assert_eq!(stale_timeout_seconds("abc"), 600);
    assert_eq!(stale_timeout_seconds("5"), 60);
    assert_eq!(stale_timeout_seconds("-9"), 60);
    assert_eq!(effective_stale_timeout(600, 5, 5), 120);
    assert_eq!(effective_stale_timeout(90, 5, 5), 90);
    assert_eq!(effective_stale_timeout(600, 1, 5), 200);
    assert_eq!(effective_stale_timeout(300, 1, 5), 120);
    assert_eq!(effective_stale_timeout(300, 0, 0), 120);
}

#[test]
fn stale_jobs_fail_with_a_report() {
    let mut job = start_job("batch".to_string(), 0, "2024-01-01T00:00:00Z");
    assert!(needs_stale_check(&job));
    assert_eq!(heartbeat(&job), "2024-01-01T00:00:00Z");
    job.last_progress_at = "  ".to_string();
    assert_eq!(heartbeat(&job), "2024-01-01T00:00:00Z");
    job.scanned_count = 2;
    job.total_count = 5;
    job.api_calls = 7;
    let failed = fail_stale(job, 301, 900, "200", "2024-01-01T00:10:00Z", "https://esi/x", "now");
    assert_eq!(
        failed.last_error,
        "Refresh marked failed after 301 seconds without progress (900 seconds total). Last item: unknown; scanned 2/5; API calls 7; last ESI 200 2024-01-01T00:10:00Z; last URL: https://esi/x."
    );
    assert_eq!(failed.status, "failed");
    assert!(!needs_stale_check(&failed));
    let idle = idle_refresh_job(0);
    assert!(!needs_stale_check(&idle));
}
