use chrono::{TimeZone, Utc};
use spotwatt::tariff::{EnergyModel, Tariff};
use spotwatt::time::{is_night_or_weekend, night_or_weekend};

fn micros(nok: f64) -> i64 {
    (nok * 1_000_000.0).round() as i64
}

/// Results are whole micro-kroner; the expected values below are exact
/// decimal amounts, so they must match to the micro-krone.
fn exactly(a: i64, micro_kroner: i64) {
    assert_eq!(a, micro_kroner);
}

/// Wednesday 2026-07-01 12:00 Oslo (CEST) — a weekday daytime hour.
fn weekday_noon() -> i64 {
    Utc.with_ymd_and_hms(2026, 7, 1, 10, 0, 0).unwrap().timestamp()
}

/// Wednesday 2026-07-01 23:00 Oslo — a weekday night hour.
fn weekday_night() -> i64 {
    Utc.with_ymd_and_hms(2026, 7, 1, 21, 0, 0).unwrap().timestamp()
}

/// Saturday 2026-07-04 12:00 Oslo — weekend, midday.
fn saturday_noon() -> i64 {
    Utc.with_ymd_and_hms(2026, 7, 4, 10, 0, 0).unwrap().timestamp()
}

#[test]
fn raw_spot_is_pass_through() {
    let t = Tariff::raw_spot();
    exactly(t.effective_at(micros(0.5), weekday_noon()), 500_000);
    exactly(t.effective_at(micros(3.0), weekday_night()), 3_000_000);
    exactly(t.subsidy(micros(10.0)), 0);
}

#[test]
fn adds_grid_tax_and_vat_below_threshold() {
    let t = Tariff::default();
    // 0.50 spot, daytime, no subsidy: (0.50 + 0.40 + 0.0713) * 1.25
    exactly(t.effective_at(micros(0.50), weekday_noon()), 1_214_125);
    exactly(t.subsidy(micros(0.50)), 0);
    assert_eq!(t.effective_at(500_000, weekday_noon()), 1_214_125);
}

#[test]
fn night_and_weekend_use_the_cheap_grid_rate() {
    let t = Tariff::default();
    // (0.50 + 0.32 + 0.0713) * 1.25 = 1.114125 kr
    let night = 1_114_125;
    exactly(t.effective_at(micros(0.50), weekday_night()), night);
    exactly(t.effective_at(micros(0.50), saturday_noon()), night);
}

#[test]
fn subsidy_compresses_the_expensive_end() {
    let t = Tariff::default();
    // At 2.0 kr spot, 90% of (2.0 - 0.77) is refunded.
    // 0.90 * (2.0 - 0.77) = 1.107 kr
    exactly(t.subsidy(micros(2.0)), 1_107_000);
    // (2.0 - 1.107 + 0.40 + 0.0713) * 1.25 = 1.705375 kr
    exactly(t.effective_at(micros(2.0), weekday_noon()), 1_705_375);
}

#[test]
fn subsidy_shrinks_the_spread_seen_by_the_customer() {
    let t = Tariff::default();
    // A 2.5 kr raw spread between a cheap and an expensive hour...
    let cheap_spot = micros(0.20);
    let pricey_spot = micros(2.70);
    let raw_spread = pricey_spot - cheap_spot;
    let eff_spread = t.effective_at(pricey_spot, weekday_noon()) - t.effective_at(cheap_spot, weekday_noon());
    // ...is much smaller after support, even with VAT scaling it up.
    assert!(eff_spread < raw_spread, "effective spread {eff_spread} should be below raw {raw_spread}");
}

#[test]
fn norgespris_ignores_spot_entirely() {
    let t = Tariff { energy_model: EnergyModel::Norgespris, ..Tariff::default() };
    // (0.40 + 0.40 + 0.0713) * 1.25 = 1.089125 kr
    exactly(t.effective_at(micros(0.05), weekday_noon()), 1_089_125);
    exactly(t.effective_at(micros(5.00), weekday_noon()), 1_089_125);
}

#[test]
fn norgespris_still_steps_on_the_grid_day_night_rate() {
    let t = Tariff { energy_model: EnergyModel::Norgespris, ..Tariff::default() };
    let day = t.effective_at(micros(1.0), weekday_noon());
    let night = t.effective_at(micros(1.0), weekday_night());
    // (0.40 - 0.32) * 1.25 = 0.1 kr
    exactly(day - night, 100_000);
}

#[test]
fn effective_is_monotonic_in_spot() {
    let t = Tariff::default();
    let at = weekday_noon();
    let mut prev = i64::MIN;
    let mut s = 0;
    while s < micros(5.0) {
        let e = t.effective_at(s, at);
        assert!(e >= prev, "effective price dipped at spot {s}");
        prev = e;
        s += micros(0.05);
    }
}

#[test]
fn night_and_weekend_hours() {
    assert!(!night_or_weekend(weekday_noon()));
    assert!(night_or_weekend(weekday_night()));
    assert!(night_or_weekend(saturday_noon()));
    // 06:00 Oslo on a weekday is the first day-rate hour (04:00 UTC in summer).
    assert!(!night_or_weekend(Utc.with_ymd_and_hms(2026, 7, 1, 4, 0, 0).unwrap().timestamp()));
    assert!(night_or_weekend(Utc.with_ymd_and_hms(2026, 7, 1, 3, 59, 0).unwrap().timestamp()));
}

#[test]
fn cheap_grid_hours_from_the_clock() {
    assert!(is_night_or_weekend((0, 23, 0)));
    assert!(is_night_or_weekend((0, 5, 2)));
    assert!(!is_night_or_weekend((0, 6, 2)));
    assert!(!is_night_or_weekend((0, 21, 4)));
    assert!(is_night_or_weekend((0, 12, 5)));
    assert!(is_night_or_weekend((0, 12, 6)));
}
