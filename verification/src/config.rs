//! Runtime configuration: what each setting defaults to, and the periods
//! the background tasks run at.

use vstd::prelude::*;
use vstd::string::*;

use crate::tariff::Tariff;

verus! {

/// Price region by default.
pub fn d_region() -> (r: String)
    ensures
        r@ == "NO1"@,
{
    String::from_str("NO1")
}

/// The dashboard listens on the loopback interface by default.
pub fn d_listen() -> (r: String)
    ensures
        r@ == "127.0.0.1:8080"@,
{
    String::from_str("127.0.0.1:8080")
}

/// The job database by default: a SQLite file, created when missing.
pub fn d_db() -> (r: String)
    ensures
        r@ == "sqlite:spotwatt.db?mode=rwc"@,
{
    String::from_str("sqlite:spotwatt.db?mode=rwc")
}

/// Seconds between scheduler ticks by default.
pub fn d_tick() -> (r: u64)
    ensures
        r == 60,
{
    60
}

/// Jobs allowed to run at once by default.
pub fn d_max_jobs() -> (r: usize)
    ensures
        r == 2,
{
    2
}

/// Minutes between price fetches by default.
pub fn d_refresh() -> (r: u64)
    ensures
        r == 30,
{
    30
}

/// Minutes a single run may take before it is killed, by default.
pub fn d_job_timeout() -> (r: u64)
    ensures
        r == 720,
{
    720
}

/// Runtime configuration.
#[derive(Debug, Clone)]
pub struct Config {
    /// Price region: NO1..NO5.
    pub region: String,
    /// Address the HTTP dashboard listens on.
    pub listen: String,
    /// Database connection string.
    pub database_url: String,
    /// How often the scheduler re-evaluates jobs, seconds.
    pub tick_seconds: u64,
    /// Maximum jobs allowed to run at the same time.
    pub max_concurrent_jobs: usize,
    /// How often to re-fetch the price curve, minutes.
    pub price_refresh_minutes: u64,
    /// Site power budget in watts: no job starts whose draw would take the
    /// running total over it. `None` disables the budget (count cap only).
    pub max_power_watts: Option<i64>,
    /// Hard wall-clock cap on a single run, minutes.
    pub job_timeout_minutes: u64,
    /// The price components beyond raw spot.
    pub tariff: Tariff,
}

impl Default for Config {
    fn default() -> (c: Config)
        ensures
            c.region@ == "NO1"@,
            c.listen@ == "127.0.0.1:8080"@,
            c.database_url@ == "sqlite:spotwatt.db?mode=rwc"@,
            c.tick_seconds == 60,
            c.max_concurrent_jobs == 2,
            c.price_refresh_minutes == 30,
            c.max_power_watts is None,
            c.job_timeout_minutes == 720,
            c.tariff.wf(),
            c.tariff.vat_rate == 250_000,
    {
        Config {
            region: d_region(),
            listen: d_listen(),
            database_url: d_db(),
            tick_seconds: d_tick(),
            max_concurrent_jobs: d_max_jobs(),
            price_refresh_minutes: d_refresh(),
            max_power_watts: None,
            job_timeout_minutes: d_job_timeout(),
            tariff: Tariff::default(),
        }
    }
}

impl Config {
    /// Seconds between scheduler ticks: the configured period, at least 5.
    pub fn tick_period_secs(&self) -> (s: u64)
        ensures
            s == (if self.tick_seconds > 5 { self.tick_seconds } else { 5 }),
    {
        if self.tick_seconds > 5 { self.tick_seconds } else { 5 }
    }

    /// Seconds between price fetches: the configured minutes, at least one.
    pub fn refresh_period_secs(&self) -> (s: u64)
        requires
            self.price_refresh_minutes <= u64::MAX / 60,
        ensures
            s == 60 * (if self.price_refresh_minutes > 1 { self.price_refresh_minutes } else { 1 }),
    {
        let m = if self.price_refresh_minutes > 1 { self.price_refresh_minutes } else { 1 };
        m * 60
    }
}

/// A Norwegian price area.
#[derive(Debug, Clone, Copy, PartialEq, Eq, Structural)]
pub enum Region {
    NO1,
    NO2,
    NO3,
    NO4,
    NO5,
}

/// ASCII upper-casing of `c`.
pub open spec fn upper(c: char) -> char {
    if 'a' <= c && c <= 'z' {
        ((c as u32) - 32) as char
    } else {
        c
    }
}

/// `s` equals `name` ignoring ASCII case.
pub open spec fn eq_ignoring_ascii_case(s: Seq<char>, name: Seq<char>) -> bool {
    s.len() == name.len() && forall|i: int| 0 <= i < s.len() ==> upper(#[trigger] s[i]) == name[i]
}

/// The area a configured region names, ignoring ASCII case; anything
/// unknown is NO1.
pub open spec fn spec_region(s: Seq<char>) -> Region {
    if eq_ignoring_ascii_case(s, "NO2"@) {
        Region::NO2
    } else if eq_ignoring_ascii_case(s, "NO3"@) {
        Region::NO3
    } else if eq_ignoring_ascii_case(s, "NO4"@) {
        Region::NO4
    } else if eq_ignoring_ascii_case(s, "NO5"@) {
        Region::NO5
    } else {
        Region::NO1
    }
}

fn upper_char(c: char) -> (r: char)
    ensures
        r == upper(c),
{
    if 'a' <= c && c <= 'z' {
        ((c as u8) - 32) as char
    } else {
        c
    }
}

fn matches_name(s: &str, name: &str) -> (b: bool)
    ensures
        b == eq_ignoring_ascii_case(s@, name@),
{
    let n = s.unicode_len();
    if n != name.unicode_len() {
        return false;
    }
    let mut i: usize = 0;
    while i < n
        invariant
            n == s@.len(),
            n == name@.len(),
            0 <= i <= n,
            forall|k: int| 0 <= k < i ==> upper(#[trigger] s@[k]) == name@[k],
        decreases n - i,
    {
        if upper_char(s.get_char(i)) != name.get_char(i) {
            return false;
        }
        i = i + 1;
    }
    true
}

/// The price area a configured region names (`no3` is NO3); anything
/// unknown falls back to NO1.
pub fn region_from_str(s: &str) -> (r: Region)
    ensures
        r == spec_region(s@),
{
    if matches_name(s, "NO2") {
        Region::NO2
    } else if matches_name(s, "NO3") {
        Region::NO3
    } else if matches_name(s, "NO4") {
        Region::NO4
    } else if matches_name(s, "NO5") {
        Region::NO5
    } else {
        Region::NO1
    }
}

} // verus!
