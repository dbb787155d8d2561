//! Energy cost of running at constant power over an interval, integrated
//! across the hourly price curve.

use vstd::prelude::*;

use crate::price::{all_valid, PricePoint, PriceSeries};
use crate::units::{floor_div, valid_time, valid_watts, MAX_POINTS, MAX_PRICE, MAX_TIME, MAX_WATTS};

verus! {

/// Watt-seconds per kilowatt-hour.
pub const WATT_SECONDS_PER_KWH: i64 = 3_600_000;

/// Seconds of `[start, end)` that fall inside the hour of `p`.
pub open spec fn overlap_secs(p: PricePoint, start: int, end: int) -> int {
    let s = if start > p.start { start } else { p.start as int };
    let e = if end < p.end { end } else { p.end as int };
    if e > s { e - s } else { 0 }
}

/// Cost in µNOK of drawing `watts` over the part of `[start, end)` inside
/// the hour of `p`, rounded down to the micro-krone.
pub open spec fn point_cost(p: PricePoint, start: int, end: int, watts: int) -> int {
    floor_div(p.nok_per_kwh * watts * overlap_secs(p, start, end), WATT_SECONDS_PER_KWH as int)
}

/// Sum of the per-hour costs over a sequence of points.
pub open spec fn total_cost(s: Seq<PricePoint>, start: int, end: int, watts: int) -> int
    decreases s.len(),
{
    if s.len() == 0 {
        0
    } else {
        total_cost(s.drop_last(), start, end, watts) + point_cost(s.last(), start, end, watts)
    }
}

/// Some point of `s` overlaps `[start, end)`.
pub open spec fn any_overlap(s: Seq<PricePoint>, start: int, end: int) -> bool {
    exists|i: int| 0 <= i < s.len() && overlap_secs(#[trigger] s[i], start, end) > 0
}

/// The cost `interval_cost` computes: zero for an empty interval, nothing
/// when no known price covers any part of it, otherwise the sum of the
/// hourly costs.
pub open spec fn spec_interval_cost(s: Seq<PricePoint>, start: int, end: int, watts: int) -> Option<int> {
    if end <= start {
        Some(0)
    } else if any_overlap(s, start, end) {
        Some(total_cost(s, start, end, watts))
    } else {
        None
    }
}

/// Largest magnitude of the cost of one hour, µNOK.
pub const MAX_POINT_COST: i128 = 10_000_000_000_000_000_000_000_000_000;

/// Largest magnitude of the cost of any interval, µNOK: one hour's worth
/// for every point a series can hold.
pub const MAX_COST: i128 = 167_772_160_000_000_000_000_000_000_000_000_000;

proof fn lemma_point_cost_bounded(p: PricePoint, start: int, end: int, watts: int)
    requires
        p.valid(),
        valid_time(start),
        valid_time(end),
        valid_watts(watts),
    ensures
        -MAX_POINT_COST <= point_cost(p, start, end, watts) <= MAX_POINT_COST,
        -MAX_PRICE * MAX_WATTS <= p.nok_per_kwh * watts <= MAX_PRICE * MAX_WATTS,
        -MAX_POINT_COST * WATT_SECONDS_PER_KWH <= p.nok_per_kwh * watts * overlap_secs(p, start, end)
            <= MAX_POINT_COST * WATT_SECONDS_PER_KWH,
{
    let o = overlap_secs(p, start, end);
    let x = p.nok_per_kwh * watts * o;
    assert(0 <= o <= 2 * MAX_TIME);
    assert(-MAX_PRICE * MAX_WATTS <= p.nok_per_kwh * watts <= MAX_PRICE * MAX_WATTS) by (nonlinear_arith)
        requires -MAX_PRICE <= p.nok_per_kwh <= MAX_PRICE, -MAX_WATTS <= watts <= MAX_WATTS;
    assert(-MAX_PRICE * MAX_WATTS * (2 * MAX_TIME) <= x <= MAX_PRICE * MAX_WATTS * (2 * MAX_TIME)) by (nonlinear_arith)
        requires
            -MAX_PRICE * MAX_WATTS <= p.nok_per_kwh * watts <= MAX_PRICE * MAX_WATTS,
            0 <= o <= 2 * MAX_TIME,
            x == p.nok_per_kwh * watts * o;
    let bound = MAX_POINT_COST * WATT_SECONDS_PER_KWH;
    assert(MAX_PRICE * MAX_WATTS * (2 * MAX_TIME) <= bound);
    vstd::arithmetic::div_mod::lemma_div_is_ordered(x, bound, WATT_SECONDS_PER_KWH as int);
    vstd::arithmetic::div_mod::lemma_div_is_ordered(-bound, x, WATT_SECONDS_PER_KWH as int);
    vstd::arithmetic::div_mod::lemma_div_multiples_vanish(MAX_POINT_COST as int, WATT_SECONDS_PER_KWH as int);
    vstd::arithmetic::div_mod::lemma_div_multiples_vanish(-MAX_POINT_COST, WATT_SECONDS_PER_KWH as int);
}

proof fn lemma_total_cost_step(s: Seq<PricePoint>, i: int, start: int, end: int, watts: int)
    requires
        0 <= i < s.len(),
    ensures
        total_cost(s.subrange(0, i + 1), start, end, watts)
            == total_cost(s.subrange(0, i), start, end, watts) + point_cost(s[i], start, end, watts),
{
    assert(s.subrange(0, i + 1).drop_last() == s.subrange(0, i));
}

/// Energy cost in µNOK of drawing `power_watts` continuously over
/// `[start, end)`, integrated across the hourly price curve (partial-hour
/// overlaps count pro rata, each hour's share rounded down to the
/// micro-krone). Returns `None` if no known price covers any part of the
/// interval.
pub fn interval_cost(prices: &PriceSeries, start: i64, end: i64, power_watts: i64) -> (r: Option<i128>)
    requires
        prices.wf(),
        valid_time(start as int),
        valid_time(end as int),
        valid_watts(power_watts as int),
    ensures
        r == (match spec_interval_cost(prices.points@, start as int, end as int, power_watts as int) {
            Some(c) => Some(c as i128),
            None => None::<i128>,
        }),
        r matches Some(c) ==> c == spec_interval_cost(prices.points@, start as int, end as int, power_watts as int)->0,
        r matches Some(c) ==> -MAX_COST <= c <= MAX_COST,
{
    if end <= start {
        return Some(0);
    }
    let pts = &prices.points;
    let n = pts.len();
    let mut total: i128 = 0;
    let mut any = false;
    let mut i: usize = 0;
    while i < n
        invariant
            pts == &prices.points,
            n == pts.len(),
            n <= MAX_POINTS,
            all_valid(pts@),
            valid_time(start as int),
            valid_time(end as int),
            valid_watts(power_watts as int),
            0 <= i <= n,
            total == total_cost(pts@.subrange(0, i as int), start as int, end as int, power_watts as int),
            -(i as int) * MAX_POINT_COST <= total <= (i as int) * MAX_POINT_COST,
            any == exists|j: int| 0 <= j < i && overlap_secs(#[trigger] pts@[j], start as int, end as int) > 0,
        decreases n - i,
    {
        let p = pts[i];
        proof {
            assert(p.valid());
            lemma_point_cost_bounded(p, start as int, end as int, power_watts as int);
            lemma_total_cost_step(pts@, i as int, start as int, end as int, power_watts as int);
        }
        let s = if start > p.start { start } else { p.start };
        let e = if end < p.end { end } else { p.end };
        if e > s {
            let pw: i128 = p.nok_per_kwh as i128 * power_watts as i128;
            assert(e - s == overlap_secs(p, start as int, end as int));
            let x: i128 = pw * (e as i128 - s as i128);
            let c = crate::units::div_floor(x, WATT_SECONDS_PER_KWH as i128);
            assert(c == point_cost(p, start as int, end as int, power_watts as int));
            total = total + c;
            any = true;
        } else {
            assert(overlap_secs(p, start as int, end as int) == 0);
            assert(p.nok_per_kwh * power_watts * 0 == 0);
            assert(point_cost(p, start as int, end as int, power_watts as int) == 0);
        }
        i = i + 1;
    }
    proof {
        assert(pts@.subrange(0, n as int) == pts@);
    }
    assert(MAX_POINTS * MAX_POINT_COST == MAX_COST);
    assert(n * MAX_POINT_COST <= MAX_COST) by (nonlinear_arith)
        requires n <= MAX_POINTS, MAX_POINTS * MAX_POINT_COST == MAX_COST, MAX_POINT_COST > 0;
    if any {
        Some(total)
    } else {
        None
    }
}

} // verus!
