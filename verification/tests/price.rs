use spotwatt::cost::interval_cost;
use spotwatt::price::{PricePoint, PriceSeries};
use spotwatt::tariff::Tariff;

const HOUR: i64 = 3600;
const BASE: i64 = 1_782_777_600; // 2026-06-30T00:00:00Z

fn pt(start: i64, nok: i64) -> PricePoint {
    PricePoint { start, end: start + HOUR, nok_per_kwh: nok, eur_per_kwh: nok / 11 }
}

#[test]
fn new_sorts_and_keeps_the_first_of_duplicate_hours() {
    let s = PriceSeries::new(vec![pt(BASE + HOUR, 2), pt(BASE, 1), pt(BASE + HOUR, 9), pt(BASE + 2 * HOUR, 3)]);
    let starts: Vec<i64> = s.points.iter().map(|p| p.start).collect();
    assert_eq!(starts, vec![BASE, BASE + HOUR, BASE + 2 * HOUR]);
    assert_eq!(s.points[1].nok_per_kwh, 2);
    assert_eq!(s.len(), 3);
    assert!(!s.is_empty());
    assert!(PriceSeries::new(vec![]).is_empty());
}

#[test]
fn lookups_over_the_series() {
    let s = PriceSeries::new(vec![pt(BASE, 500), pt(BASE + HOUR, 100), pt(BASE + 2 * HOUR, 900), pt(BASE + 3 * HOUR, 100), pt(BASE + 4 * HOUR, 900)]);
    assert_eq!(s.price_at(BASE + HOUR + 5).unwrap().nok_per_kwh, 100);
    assert!(s.price_at(BASE - 1).is_none());
    assert!(s.price_at(BASE + 5 * HOUR).is_none());
    assert_eq!(s.first_start(), Some(BASE));
    assert_eq!(s.last_end(), Some(BASE + 5 * HOUR));
    // The first of equally cheap hours, the last of equally dear ones.
    assert_eq!(s.min_point().unwrap().start, BASE + HOUR);
    assert_eq!(s.max_point().unwrap().start, BASE + 4 * HOUR);
    assert_eq!(s.avg_nok(), Some(500));
    let e = PriceSeries::empty();
    assert_eq!(e.avg_nok(), None);
    assert!(e.min_point().is_none());
    assert_eq!(e.first_start(), None);
}

#[test]
fn avg_rounds_down() {
    let s = PriceSeries::new(vec![pt(BASE, 1), pt(BASE + HOUR, 2)]);
    assert_eq!(s.avg_nok(), Some(1));
    let n = PriceSeries::new(vec![pt(BASE, -1), pt(BASE + HOUR, -2)]);
    assert_eq!(n.avg_nok(), Some(-2));
}

#[test]
fn with_tariff_replaces_nok_and_keeps_the_rest() {
    let s = PriceSeries::new(vec![pt(BASE + 10 * HOUR, 500_000)]);
    let e = s.with_tariff(&Tariff::default());
    assert_eq!(e.points[0].start, BASE + 10 * HOUR);
    assert_eq!(e.points[0].eur_per_kwh, 500_000 / 11);
    assert_eq!(e.points[0].nok_per_kwh, 1_214_125);
}

#[test]
fn interval_cost_integrates_partial_hours() {
    let s = PriceSeries::new(vec![pt(BASE, 1_000_000), pt(BASE + HOUR, 2_000_000)]);
    // 1 kW for 30 min in the first hour and 30 min in the second: 0.5 + 1.0 kr.
    assert_eq!(interval_cost(&s, BASE + HOUR / 2, BASE + 3 * HOUR / 2, 1000), Some(1_500_000));
    assert_eq!(interval_cost(&s, BASE + 5 * HOUR, BASE + 6 * HOUR, 1000), None);
    assert_eq!(interval_cost(&s, BASE + HOUR, BASE, 1000), Some(0));
}
