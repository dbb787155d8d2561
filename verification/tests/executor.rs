use chrono::{TimeZone, Utc};
use spotwatt::executor::{clip, job_outcome, run_costs, RunEnd, MAX_OUTPUT_BYTES};
use spotwatt::model::JobStatus;
use spotwatt::price::{PricePoint, PriceSeries};

#[test]
fn clip_leaves_short_output_alone() {
    let mut s = "all good".to_string();
    clip(&mut s, 100);
    assert_eq!(s, "all good");
}

#[test]
fn clip_cuts_on_a_character_boundary() {
    // "å" is two bytes: a cut at 3 bytes keeps "aå" (3 bytes).
    let mut s = "aåå".to_string();
    clip(&mut s, 3);
    assert_eq!(s, "aå");
    // A cut at 2 bytes would split the "å", so only "a" stays.
    let mut s = "aåå".to_string();
    clip(&mut s, 2);
    assert_eq!(s, "a");
    let mut s = "x".repeat(9000);
    clip(&mut s, MAX_OUTPUT_BYTES);
    assert_eq!(s.len(), 8000);
    let mut s = "a".to_string();
    clip(&mut s, 0);
    assert_eq!(s, "");
}

#[test]
fn outcome_of_a_successful_run() {
    let o = job_outcome(RunEnd::Exited {
        success: true,
        code: Some(0),
        stdout: "done\n".to_string(),
        stderr: "  \n".to_string(),
    });
    assert_eq!(o.status, JobStatus::Completed);
    assert_eq!(o.exit_code, Some(0));
    assert_eq!(o.output, "done\n");
}

#[test]
fn outcome_of_a_failed_run_keeps_stderr() {
    let o = job_outcome(RunEnd::Exited {
        success: false,
        code: Some(2),
        stdout: "partial".to_string(),
        stderr: "boom".to_string(),
    });
    assert_eq!(o.status, JobStatus::Failed);
    assert_eq!(o.exit_code, Some(2));
    assert_eq!(o.output, "partial\n[stderr]\nboom");
}

#[test]
fn outcome_when_the_command_never_started_or_hung() {
    let o = job_outcome(RunEnd::NotStarted { reason: "No such file or directory (os error 2)".to_string() });
    assert_eq!(o.status, JobStatus::Failed);
    assert_eq!(o.exit_code, None);
    assert_eq!(o.output, "failed to start command: No such file or directory (os error 2)");
    let o = job_outcome(RunEnd::TimedOut { limit_minutes: 720 });
    assert_eq!(o.status, JobStatus::Failed);
    assert_eq!(o.output, "killed: still running after the 720 min limit");
}

#[test]
fn run_and_baseline_costs() {
    let base = Utc.with_ymd_and_hms(2026, 7, 1, 0, 0, 0).unwrap().timestamp();
    let pts = vec![
        PricePoint { start: base, end: base + 3600, nok_per_kwh: 1_000_000, eur_per_kwh: 90_000 },
        PricePoint { start: base + 3600, end: base + 7200, nok_per_kwh: 200_000, eur_per_kwh: 18_000 },
    ];
    let prices = PriceSeries::new(pts);
    // Submitted at the start, run for half an hour in the cheap hour at 2 kW.
    let (actual, baseline) = run_costs(&prices, Some(2000), base, base + 3600, base + 5400);
    assert_eq!(actual, Some(200_000));
    assert_eq!(baseline, Some(1_000_000));
    assert_eq!(run_costs(&prices, None, base, base, base + 60), (None, None));
}
