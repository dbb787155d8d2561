use chrono::{TimeZone, Utc};
use spotwatt::job::{Policy, Priority};
use spotwatt::model::{
    job_from_row, minutes_from_secs, next_occurrence, policy_from_db, policy_to_db, priority_from_text,
    priority_to_db, Job, JobRow, JobStatus, Repeat,
};

#[test]
fn texts_round_trip() {
    for s in [JobStatus::Pending, JobStatus::Running, JobStatus::Completed, JobStatus::Failed, JobStatus::Cancelled] {
        assert_eq!(JobStatus::from_db(s.as_str()), s);
    }
    assert_eq!(JobStatus::from_db("bogus"), JobStatus::Pending);
    for p in [Priority::Low, Priority::Normal, Priority::High, Priority::Critical] {
        assert_eq!(priority_from_text(priority_to_db(p)), p);
    }
    assert_eq!(priority_from_text("urgent"), Priority::Normal);
    for r in [Repeat::Once, Repeat::Daily] {
        assert_eq!(Repeat::from_db(r.as_str()), r);
    }
    assert_eq!(Repeat::Once.as_str(), "none");
    for p in [Policy::Immediate, Policy::Threshold { max_nok_per_kwh: 300_000 }, Policy::CheapestWindow] {
        let (kind, threshold) = policy_to_db(&p);
        assert_eq!(policy_from_db(kind, threshold), p);
    }
    assert_eq!(policy_from_db("threshold", None), Policy::Threshold { max_nok_per_kwh: 0 });
    assert_eq!(policy_from_db("whatever", Some(5)), Policy::CheapestWindow);
}

#[test]
fn measured_minutes_round_to_nearest() {
    assert_eq!(minutes_from_secs(0), 0);
    assert_eq!(minutes_from_secs(29), 0);
    assert_eq!(minutes_from_secs(30), 1);
    assert_eq!(minutes_from_secs(89), 1);
    assert_eq!(minutes_from_secs(90), 2);
}

fn row() -> JobRow {
    JobRow {
        id: 7,
        name: "backup".to_string(),
        command: "restic backup /data".to_string(),
        policy_kind: "threshold".to_string(),
        threshold_nok: Some(450_000),
        duration_minutes: 45,
        deadline: Some(1_800_000_000),
        power_watts: Some(60),
        priority: "high".to_string(),
        repeat_kind: "daily".to_string(),
        earliest_start: None,
        status: "completed".to_string(),
        scheduled_start: Some(i64::MAX),
        created_at: 1_700_000_000,
        started_at: Some(1_790_000_000),
        finished_at: Some(1_790_002_700),
        exit_code: Some(0),
        output: Some("ok".to_string()),
        est_cost_nok: Some(12_345),
        baseline_cost_nok: None,
    }
}

#[test]
fn rows_decode_with_out_of_range_instants_absent() {
    let j = job_from_row(row(), 42);
    assert_eq!(j.policy, Policy::Threshold { max_nok_per_kwh: 450_000 });
    assert_eq!(j.priority, Priority::High);
    assert_eq!(j.repeat, Repeat::Daily);
    assert_eq!(j.status, JobStatus::Completed);
    assert_eq!(j.scheduled_start, None);
    assert_eq!(j.created_at, 1_700_000_000);
    let mut r = row();
    r.created_at = i64::MIN;
    assert_eq!(job_from_row(r, 42).created_at, 42);
}

fn finished(deadline: Option<i64>, earliest: Option<i64>, started: Option<i64>, repeat: Repeat) -> Job {
    let mut j = job_from_row(row(), 0);
    j.deadline = deadline;
    j.earliest_start = earliest;
    j.started_at = started;
    j.repeat = repeat;
    j
}

#[test]
fn one_off_jobs_do_not_recur() {
    assert!(next_occurrence(&finished(None, None, None, Repeat::Once), 0).is_none());
}

#[test]
fn daily_deadline_rolls_to_the_next_future_one() {
    let dl = Utc.with_ymd_and_hms(2026, 7, 1, 5, 0, 0).unwrap().timestamp();
    // Finished on time: the next deadline is a day later.
    let now = dl - 3600;
    let n = next_occurrence(&finished(Some(dl), None, None, Repeat::Daily), now).unwrap();
    assert_eq!(n.deadline, Some(dl + 86_400));
    assert_eq!(n.earliest_start, Some(dl));
    assert_eq!(n.created_at, now);
    // Three days of downtime: no burst of stale runs, just the next one.
    let now = dl + 3 * 86_400 + 60;
    let n = next_occurrence(&finished(Some(dl), None, None, Repeat::Daily), now).unwrap();
    assert_eq!(n.deadline, Some(dl + 4 * 86_400));
    assert_eq!(n.earliest_start, Some(dl + 3 * 86_400));
}

#[test]
fn daily_without_deadline_chains_from_its_anchor() {
    let n = next_occurrence(&finished(None, Some(1_000), Some(5_000), Repeat::Daily), 9_000).unwrap();
    assert_eq!(n.deadline, None);
    assert_eq!(n.earliest_start, Some(5_000 + 86_400));
    let n = next_occurrence(&finished(None, None, None, Repeat::Daily), 9_000).unwrap();
    assert_eq!(n.earliest_start, Some(9_000 + 86_400));
}
