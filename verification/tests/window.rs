use chrono::{TimeZone, Utc};
use spotwatt::price::{PricePoint, PriceSeries};
use spotwatt::time::hour_floor;
use spotwatt::window::{cheapest_window, slots_for, window_at};

const HOUR: i64 = 3600;

fn micros(nok: f64) -> i64 {
    (nok * 1_000_000.0).round() as i64
}

fn series(start: i64, prices: &[f64]) -> PriceSeries {
    let pts = prices
        .iter()
        .enumerate()
        .map(|(i, &pr)| {
            let s = start + HOUR * i as i64;
            PricePoint { start: s, end: s + HOUR, nok_per_kwh: micros(pr), eur_per_kwh: micros(pr / 11.0) }
        })
        .collect();
    PriceSeries::new(pts)
}

fn base() -> i64 {
    Utc.with_ymd_and_hms(2026, 6, 30, 0, 0, 0).unwrap().timestamp()
}

#[test]
fn cheapest_window_picks_min_average() {
    // cheapest 2h block is indices 2-3 (0.2 + 0.3).
    let s = series(base(), &[1.0, 0.5, 0.2, 0.3, 0.9]);
    let w = cheapest_window(&s, base(), None, 2).unwrap();
    assert_eq!(w.start_index, 2);
    assert_eq!(w.sum_nok, 500_000);
    assert_eq!(w.avg_nok, 250_000);
    assert_eq!(w.start, base() + 2 * HOUR);
    assert_eq!(w.end, base() + 4 * HOUR);
}

#[test]
fn cheapest_window_respects_deadline() {
    // Cheapest block is at the end, but the deadline excludes it.
    let s = series(base(), &[1.0, 0.9, 0.8, 0.1, 0.1]);
    let dl = base() + 3 * HOUR; // windows must end by hour 3
    let w = cheapest_window(&s, base(), Some(dl), 2).unwrap();
    assert_eq!(w.start_index, 1); // 0.9 + 0.8 beats 1.0 + 0.9
}

#[test]
fn cheapest_window_breaks_ties_toward_earliest() {
    let s = series(base(), &[0.2, 0.2, 0.2, 0.2]);
    let w = cheapest_window(&s, base(), None, 2).unwrap();
    assert_eq!(w.start_index, 0);
}

#[test]
fn cheapest_window_skips_gaps_and_early_slots() {
    let mut pts = vec![];
    for (i, pr) in [0.1, 0.1, 0.5, 0.6].iter().enumerate() {
        // A one-hour gap between the second and third slot.
        let s = base() + HOUR * (i as i64 + if i >= 2 { 1 } else { 0 });
        pts.push(PricePoint { start: s, end: s + HOUR, nok_per_kwh: micros(*pr), eur_per_kwh: 0 });
    }
    let s = PriceSeries::new(pts);
    let w = cheapest_window(&s, base() + HOUR, None, 2).unwrap();
    assert_eq!(w.start_index, 2);
    assert!(cheapest_window(&s, base(), None, 0).is_none());
    assert!(cheapest_window(&s, base(), None, 5).is_none());
}

#[test]
fn window_at_prices_the_run_now_baseline() {
    let s = series(base(), &[1.0, 0.5, 0.2]);
    let w = window_at(&s, base() + HOUR + 10, 2).unwrap();
    assert_eq!(w.start_index, 1);
    assert_eq!(w.sum_nok, 700_000);
    assert!(window_at(&s, base() + HOUR + 10, 3).is_none());
    assert!(window_at(&s, base() + 10 * HOUR, 1).is_none());
}

#[test]
fn slots_round_up_to_whole_hours() {
    assert_eq!(slots_for(-5), 1);
    assert_eq!(slots_for(0), 1);
    assert_eq!(slots_for(1), 1);
    assert_eq!(slots_for(60), 1);
    assert_eq!(slots_for(61), 2);
    assert_eq!(slots_for(180), 3);
}

#[test]
fn hour_floor_truncates_to_the_hour() {
    assert_eq!(hour_floor(base() + 3599), base());
    assert_eq!(hour_floor(base() + 3600), base() + 3600);
    assert_eq!(hour_floor(-1), -3600);
    // Beyond the nanosecond range the instant is returned unchanged.
    assert_eq!(hour_floor(10_000_000_001), 10_000_000_001);
}
