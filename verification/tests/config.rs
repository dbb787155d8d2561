use spotwatt::config::{d_db, d_job_timeout, d_listen, d_max_jobs, d_refresh, d_region, d_tick, region_from_str, Config, Region};
use spotwatt::tariff::{d_model, d_subsidy_threshold, d_vat, EnergyModel};

#[test]
fn defaults() {
    assert_eq!(d_region(), "NO1");
    assert_eq!(d_listen(), "127.0.0.1:8080");
    assert_eq!(d_db(), "sqlite:spotwatt.db?mode=rwc");
    assert_eq!(d_tick(), 60);
    assert_eq!(d_max_jobs(), 2);
    assert_eq!(d_refresh(), 30);
    assert_eq!(d_job_timeout(), 720);
    assert_eq!(d_model(), EnergyModel::Spot);
    assert_eq!(d_vat(), 250_000);
    assert_eq!(d_subsidy_threshold(), 770_000);
    let c = Config::default();
    assert_eq!(c.region, "NO1");
    assert_eq!(c.max_power_watts, None);
    assert_eq!(c.tariff.vat_rate, 250_000);
}

#[test]
fn periods_have_floors() {
    let mut c = Config::default();
    c.tick_seconds = 1;
    assert_eq!(c.tick_period_secs(), 5);
    c.tick_seconds = 90;
    assert_eq!(c.tick_period_secs(), 90);
    c.price_refresh_minutes = 0;
    assert_eq!(c.refresh_period_secs(), 60);
    c.price_refresh_minutes = 30;
    assert_eq!(c.refresh_period_secs(), 1800);
}

#[test]
fn regions_ignore_case_and_default_to_no1() {
    assert_eq!(region_from_str("NO3"), Region::NO3);
    assert_eq!(region_from_str("no5"), Region::NO5);
    assert_eq!(region_from_str("No2"), Region::NO2);
    assert_eq!(region_from_str("NO6"), Region::NO1);
    assert_eq!(region_from_str(""), Region::NO1);
}
