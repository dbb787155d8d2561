//! Fixed-point units and the ranges within which the arithmetic is exact.

use vstd::prelude::*;

verus! {

/// Micro-units per whole unit: a price of one krone per kWh is `1_000_000`,
/// and a fraction of one (100 %) is `1_000_000` parts per million.
pub const MICROS: i64 = 1_000_000;

/// Seconds in one hourly price slot.
pub const SECS_PER_HOUR: i64 = 3600;

/// Seconds in one day.
pub const SECS_PER_DAY: i64 = 86_400;

/// Largest distance from the Unix epoch, in seconds, of an instant the
/// library handles: two hours before the last second of the calendar's range
/// (31 December 262142, 23:59:59 UTC), so that every handled instant still
/// has an Oslo wall-clock date and time.
pub const MAX_TIME: i64 = 8_210_266_869_599;

/// Largest magnitude of a price, µNOK/kWh (one million kroner per kWh).
pub const MAX_PRICE: i64 = 1_000_000_000_000;

/// Largest magnitude of a raw spot price or tariff component that the
/// effective-price transform accepts, µNOK/kWh (100 000 kroner per kWh,
/// far above the day-ahead market's clearing limits).
pub const MAX_SPOT: i64 = 100_000_000_000;

/// Largest magnitude of a power draw or budget, watts (one gigawatt).
pub const MAX_WATTS: i64 = 1_000_000_000;

/// Largest number of hourly points a price series holds.
pub const MAX_POINTS: usize = 16_777_216;

/// Largest job duration in minutes that still converts to a time span
/// (longer spans do not fit the millisecond range of a time delta).
pub const MAX_DURATION_MINUTES: i64 = 153_722_867_280_912;

/// Largest magnitude of a measured run, in minutes, that the runtime
/// estimator takes: half the longest duration, so that an estimate padded by
/// its safety margin still converts to a time span.
pub const MAX_SAMPLE_MINUTES: i64 = 76_861_433_640_456;

pub open spec fn valid_time(t: int) -> bool {
    -MAX_TIME <= t <= MAX_TIME
}

/// Whether `t` is an instant the library handles.
pub fn is_valid_time(t: i64) -> (b: bool)
    ensures
        b == valid_time(t as int),
{
    -MAX_TIME <= t && t <= MAX_TIME
}

pub open spec fn valid_price(p: int) -> bool {
    -MAX_PRICE <= p <= MAX_PRICE
}

pub open spec fn valid_watts(w: int) -> bool {
    -MAX_WATTS <= w <= MAX_WATTS
}

/// Floor of `n / d` for a positive divisor.
pub open spec fn floor_div(n: int, d: int) -> int
    recommends
        d > 0,
{
    n / d
}

proof fn lemma_floor_div_bounded(n: int, d: int)
    requires
        d > 0,
    ensures
        n >= 0 ==> 0 <= n / d <= n,
        n < 0 ==> n <= n / d < 0,
{
    if n >= 0 {
        vstd::arithmetic::div_mod::lemma_div_pos_is_pos(n, d);
        vstd::arithmetic::div_mod::lemma_div_is_ordered_by_denominator(n, 1, d);
    } else {
        vstd::arithmetic::div_mod::lemma_fundamental_div_mod(n, d);
        assert(n / d < 0) by (nonlinear_arith)
            requires n < 0, d > 0, n == d * (n / d) + n % d, 0 <= n % d < d;
        assert(n <= n / d) by (nonlinear_arith)
            requires n < 0, d > 0, n == d * (n / d) + n % d, 0 <= n % d < d, n / d < 0;
    }
}

/// Floor division of an `i128` by a positive `i128`.
pub fn div_floor(n: i128, d: i128) -> (q: i128)
    requires
        d > 0,
    ensures
        q == floor_div(n as int, d as int),
{
    proof {
        lemma_floor_div_bounded(n as int, d as int);
    }
    n.checked_div_euclid(d).unwrap()
}

} // verus!
