use chrono::{TimeZone, Utc};
use spotwatt::job::{JobSpec, Policy};
use spotwatt::price::{PricePoint, PriceSeries};
use spotwatt::schedule::{plan, PlanReason};

const HOUR: i64 = 3600;
const MINUTE: i64 = 60;

fn micros(nok: f64) -> i64 {
    (nok * 1_000_000.0).round() as i64
}

/// An hourly series starting at `start` with the given NOK/kWh prices.
fn series(start: i64, prices: &[f64]) -> PriceSeries {
    let pts = prices
        .iter()
        .enumerate()
        .map(|(i, &pr)| {
            let s = start + HOUR * i as i64;
            PricePoint { start: s, end: s + HOUR, nok_per_kwh: micros(pr), eur_per_kwh: micros(pr / 11.0) }
        })
        .collect();
    PriceSeries::new(pts)
}

fn base() -> i64 {
    Utc.with_ymd_and_hms(2026, 6, 30, 0, 0, 0).unwrap().timestamp()
}

fn spec(policy: Policy, minutes: i64, deadline: Option<i64>) -> JobSpec {
    JobSpec { policy, duration_minutes: minutes, deadline, earliest_start: None }
}

#[test]
fn plan_waits_when_cheapest_is_later() {
    let s = series(base(), &[1.0, 0.2, 0.2, 1.0]);
    let p = plan(&spec(Policy::CheapestWindow, 60, None), &s, base());
    assert!(!p.run_now);
    assert_eq!(p.start_at, Some(base() + HOUR));
    assert_eq!(p.reason, PlanReason::CheapestLater { hours: 1, avg: 200_000 });
}

#[test]
fn plan_runs_now_when_now_is_cheapest() {
    let s = series(base(), &[0.1, 0.9, 0.9]);
    let p = plan(&spec(Policy::CheapestWindow, 60, None), &s, base());
    assert!(p.run_now);
}

#[test]
fn plan_forced_when_deadline_too_soon() {
    let s = series(base(), &[1.0, 0.1]);
    // 120-min job but only 90 min until the deadline → must start now.
    let p = plan(&spec(Policy::CheapestWindow, 120, Some(base() + 90 * MINUTE)), &s, base());
    assert!(p.run_now && p.forced);
}

#[test]
fn threshold_runs_below_and_waits_above() {
    let s = series(base(), &[1.0, 0.3]);
    let job = spec(Policy::Threshold { max_nok_per_kwh: micros(0.5) }, 60, None);

    let p0 = plan(&job, &s, base());
    assert!(!p0.run_now);
    assert_eq!(p0.start_at, Some(base() + HOUR));

    let p1 = plan(&job, &s, base() + HOUR);
    assert!(p1.run_now);
}

#[test]
fn immediate_always_runs() {
    let s = series(base(), &[9.9]);
    let p = plan(&spec(Policy::Immediate, 60, None), &s, base());
    assert!(p.run_now);
}

#[test]
fn multi_hour_window_needs_enough_slots() {
    // Only 2 hours of data but a 3-hour job and no deadline → wait.
    let s = series(base(), &[0.1, 0.1]);
    let p = plan(&spec(Policy::CheapestWindow, 180, None), &s, base());
    assert!(!p.run_now);
}

#[test]
fn earliest_start_holds_back_cheapest_window() {
    // Cheapest hour is right now, but the job may not start until hour 2.
    let s = series(base(), &[0.1, 0.5, 0.2, 0.9]);
    let mut job = spec(Policy::CheapestWindow, 60, None);
    job.earliest_start = Some(base() + 2 * HOUR);

    let p = plan(&job, &s, base());
    assert!(!p.run_now);
    assert_eq!(p.start_at, Some(base() + 2 * HOUR));

    let p2 = plan(&job, &s, base() + 2 * HOUR);
    assert!(p2.run_now);
}

#[test]
fn earliest_start_holds_back_threshold() {
    // Price is below the threshold the whole time; only the earliest start decides.
    let s = series(base(), &[0.1, 0.1, 0.1]);
    let mut job = spec(Policy::Threshold { max_nok_per_kwh: micros(0.5) }, 60, None);
    job.earliest_start = Some(base() + HOUR);

    let p0 = plan(&job, &s, base());
    assert!(!p0.run_now);
    assert_eq!(p0.start_at, Some(base() + HOUR));
    assert_eq!(p0.reason, PlanReason::PriceFineButEarly { price: 100_000 });

    let p1 = plan(&job, &s, base() + HOUR);
    assert!(p1.run_now);
}

#[test]
fn earliest_start_holds_back_immediate() {
    let s = series(base(), &[0.1]);
    let mut job = spec(Policy::Immediate, 60, None);
    job.earliest_start = Some(base() + 2 * HOUR);

    assert!(!plan(&job, &s, base()).run_now);
    assert!(plan(&job, &s, base() + 2 * HOUR).run_now);
}

#[test]
fn deadline_does_not_force_past_earliest_start() {
    // Deadline math says "must start now to finish", but the earliest start
    // forbids it — the earliest start wins over the (contradictory) deadline.
    let s = series(base(), &[0.5, 0.5]);
    let mut job = spec(Policy::CheapestWindow, 120, Some(base() + 90 * MINUTE));
    job.earliest_start = Some(base() + HOUR);

    let p = plan(&job, &s, base());
    assert!(!p.run_now);
}

#[test]
fn mid_hour_earliest_start_delays_to_next_full_hour_window() {
    // Earliest start 00:30: the 00:00 window would begin before it, so the
    // first eligible cheapest-window start is 01:00.
    let s = series(base(), &[0.1, 0.2, 0.9]);
    let mut job = spec(Policy::CheapestWindow, 60, None);
    job.earliest_start = Some(base() + 30 * MINUTE);

    let p = plan(&job, &s, base() + 45 * MINUTE);
    assert!(!p.run_now);
    assert_eq!(p.start_at, Some(base() + HOUR));
}

#[test]
fn threshold_without_current_price_waits() {
    let s = series(base(), &[0.1]);
    let job = spec(Policy::Threshold { max_nok_per_kwh: micros(0.5) }, 60, None);
    let p = plan(&job, &s, base() + 5 * HOUR);
    assert!(!p.run_now);
    assert_eq!(p.start_at, None);
    assert_eq!(p.reason, PlanReason::NoCurrentPrice);
}

#[test]
fn threshold_deadline_forces_despite_price() {
    let s = series(base(), &[2.0, 2.0]);
    let job = spec(Policy::Threshold { max_nok_per_kwh: micros(0.5) }, 60, Some(base() + 30 * MINUTE));
    let p = plan(&job, &s, base());
    assert!(p.run_now && p.forced);
    assert_eq!(p.reason, PlanReason::DeadlineDespitePrice);
    assert_eq!(p.window_avg_nok, Some(2_000_000));
}

#[test]
fn cheapest_window_without_data_and_no_deadline_waits() {
    let s = series(base(), &[]);
    let p = plan(&spec(Policy::CheapestWindow, 60, None), &s, base());
    assert!(!p.run_now);
    assert_eq!(p.reason, PlanReason::WaitingForWindowData);
    let forced = plan(&spec(Policy::CheapestWindow, 60, Some(base() + 10 * MINUTE)), &s, base());
    assert!(forced.run_now && forced.forced);
    assert_eq!(forced.reason, PlanReason::DeadlineNoWindow);
}
