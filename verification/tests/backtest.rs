use chrono::{Datelike, NaiveDate, TimeZone, Utc};
use spotwatt::backtest::{
    avg_over, cached_points, days_before, demo_jobs, dur_label, known_horizon_end, next, parse_args, parse_u64_text,
    realistic_start, simulate_job, truncate, DemoJob, LocalDate,
};
use spotwatt::price::{PricePoint, PriceSeries};

const HOUR: i64 = 3600;

fn date(y: i32, m: u32, d: u32) -> LocalDate {
    LocalDate { days_from_ce: NaiveDate::from_ymd_opt(y, m, d).unwrap().num_days_from_ce() }
}

fn series(start: i64, prices: &[i64]) -> PriceSeries {
    let pts = prices
        .iter()
        .enumerate()
        .map(|(i, &p)| {
            let s = start + HOUR * i as i64;
            PricePoint { start: s, end: s + HOUR, nok_per_kwh: p, eur_per_kwh: p / 11 }
        })
        .collect();
    PriceSeries::new(pts)
}

#[test]
fn dates_step_forward_and_back() {
    assert_eq!(next(date(2026, 2, 28)), date(2026, 3, 1));
    assert_eq!(next(date(2024, 12, 31)), date(2025, 1, 1));
    assert_eq!(days_before(date(2026, 3, 1), 365), Some(date(2025, 3, 1)));
}

#[test]
fn horizon_is_today_until_13_then_tomorrow() {
    // 10:00 Oslo on 1 July: prices through the end of 1 July are known.
    let morning = Utc.with_ymd_and_hms(2026, 7, 1, 8, 0, 0).unwrap().timestamp();
    assert_eq!(known_horizon_end(morning), Some(Utc.with_ymd_and_hms(2026, 7, 1, 22, 0, 0).unwrap().timestamp()));
    // 14:00 Oslo: tomorrow's prices are out too.
    let afternoon = Utc.with_ymd_and_hms(2026, 7, 1, 12, 0, 0).unwrap().timestamp();
    assert_eq!(known_horizon_end(afternoon), Some(Utc.with_ymd_and_hms(2026, 7, 2, 22, 0, 0).unwrap().timestamp()));
}

#[test]
fn truncate_and_average() {
    let base = Utc.with_ymd_and_hms(2026, 7, 1, 0, 0, 0).unwrap().timestamp();
    let s = series(base, &[100, 200, 300, 400]);
    let t = truncate(&s, base + 2 * HOUR);
    assert_eq!(t.points.len(), 2);
    assert_eq!(t.points[1].nok_per_kwh, 200);
    assert_eq!(avg_over(&s, base + HOUR, base + 4 * HOUR), Some(300));
    assert_eq!(avg_over(&s, base, base + 2 * HOUR + 1), Some(200));
    assert_eq!(avg_over(&s, base + 10 * HOUR, base + 12 * HOUR), None);
    assert_eq!(avg_over(&series(base, &[1, 2]), base, base + 2 * HOUR), Some(1));
}

#[test]
fn demo_jobs_are_the_four_examples() {
    let jobs = demo_jobs();
    assert_eq!(jobs.len(), 4);
    assert_eq!(jobs[0].name, "nightly-backup");
    assert_eq!(jobs[3].duration_minutes, 360);
    assert_eq!(jobs[3].power_watts, 250);
}

#[test]
fn compact_duration_labels() {
    assert_eq!(dur_label(45), "45m");
    assert_eq!(dur_label(180), "3h");
    assert_eq!(dur_label(90), "1h30m");
    assert_eq!(dur_label(0), "0h");
}

#[test]
fn arguments() {
    let a = |v: &[&str]| v.iter().map(|s| s.to_string()).collect::<Vec<_>>();
    assert_eq!(parse_args(&a(&["backtest"])), ("NO1".to_string(), 365));
    assert_eq!(parse_args(&a(&["backtest", "--region", "NO3", "--days", "30"])), ("NO3".to_string(), 30));
    assert_eq!(parse_args(&a(&["backtest", "--days", "x", "--region"])), ("NO1".to_string(), 365));
    assert_eq!(parse_u64_text("+12"), Some(12));
    assert_eq!(parse_u64_text("-1"), None);
    assert_eq!(parse_u64_text("18446744073709551615"), Some(u64::MAX));
    assert_eq!(parse_u64_text("18446744073709551616"), None);
}

#[test]
fn cached_days_within_the_range() {
    let p = |h: i64| PricePoint { start: h * HOUR, end: (h + 1) * HOUR, nok_per_kwh: h, eur_per_kwh: 0 };
    let days = vec![
        (date(2026, 1, 1).days_from_ce, vec![p(1)]),
        (date(2026, 1, 2).days_from_ce, vec![p(2), p(3)]),
        (date(2026, 1, 3).days_from_ce, vec![p(4)]),
    ];
    let got = cached_points(&days, date(2026, 1, 2), date(2026, 1, 3));
    assert_eq!(got.iter().map(|x| x.nok_per_kwh).collect::<Vec<_>>(), vec![2, 3, 4]);
}

/// Two days of prices: cheap nights, an expensive evening.
fn two_days() -> (PriceSeries, LocalDate, LocalDate) {
    let start = Utc.with_ymd_and_hms(2026, 6, 30, 22, 0, 0).unwrap().timestamp(); // Oslo midnight, 1 July
    let shape = [
        200_000, 150_000, 100_000, 120_000, 300_000, 600_000, 900_000, 1_100_000, 1_000_000, 800_000, 700_000, 600_000,
        600_000, 600_000, 650_000, 700_000, 900_000, 1_300_000, 1_600_000, 1_400_000, 1_100_000, 800_000, 500_000,
        300_000,
    ];
    let mut all = Vec::new();
    for _ in 0..3 {
        all.extend_from_slice(&shape);
    }
    (series(start, &all), date(2026, 7, 1), date(2026, 7, 3))
}

#[test]
fn realistic_start_never_runs_past_the_deadline() {
    let (s, _, _) = two_days();
    let job = DemoJob { name: "b".to_string(), duration_minutes: 45, deadline_hour: 7, power_watts: 60, window_hours: 24 };
    let deadline = Utc.with_ymd_and_hms(2026, 7, 2, 5, 0, 0).unwrap().timestamp();
    let release = deadline - 24 * HOUR;
    let st = realistic_start(&s, &job, release, deadline);
    assert!(st >= release && st + 45 * 60 <= deadline);
    // The cheapest hour before 07:00 on 2 July is 02:00 Oslo (00:00 UTC).
    assert_eq!(st, Utc.with_ymd_and_hms(2026, 7, 2, 0, 0, 0).unwrap().timestamp());
}

#[test]
fn simulation_counts_days_and_orders_the_costs() {
    let (s, start, end) = two_days();
    let job = DemoJob { name: "b".to_string(), duration_minutes: 60, deadline_hour: 7, power_watts: 1000, window_hours: 24 };
    let r = simulate_job(&s, &job, start, end);
    assert_eq!(r.runs, 2);
    assert!(r.oracle <= r.spotwatt);
    assert!(r.spotwatt < r.typical);
}
