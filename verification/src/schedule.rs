//! The scheduling decision: given a job spec, a price series and the current
//! time, decide whether the job should start *now* and, if not, when the
//! cheapest opportunity is.
//!
//! Nothing is committed far in advance: every scheduler tick re-runs `plan`
//! against the latest known prices, and a job "waits" simply by not being
//! told to run yet.

use vstd::prelude::*;

use crate::job::{JobSpec, Policy};
use crate::price::{sorted_by_start, spec_price_at, PricePoint, PriceSeries};
use crate::time::{hour_floor, spec_hour_floor};
use crate::units::{valid_time, MAX_DURATION_MINUTES};
use crate::window::{cheapest_window, eligible, is_best, lemma_best_unique, slots_for, spec_cheapest_window, spec_slots_for, window_sum};
use crate::units::floor_div;

verus! {

/// Why a plan came out the way it did; the dashboard words it.
#[derive(Debug, Clone, Copy, PartialEq, Eq, Structural)]
pub enum PlanReason {
    /// Held back until its earliest-start time.
    WaitingForEarliestStart,
    /// Immediate: runs regardless of price.
    Immediate,
    /// The deadline is reached: starting despite the price.
    DeadlineDespitePrice,
    /// The current price is at or below the threshold.
    BelowThreshold { price: i64, max: i64 },
    /// The current price is fine but the earliest-start time has not come.
    PriceFineButEarly { price: i64 },
    /// The current price is above the threshold: waiting.
    AboveThreshold { price: i64, max: i64 },
    /// No price is known for the current hour.
    NoCurrentPrice,
    /// The cheapest `hours`-hour window starts now.
    CheapestStartsNow { hours: usize, avg: i64 },
    /// The deadline is reached: starting now, best effort.
    DeadlineBestEffort,
    /// The cheapest `hours`-hour window is later: waiting.
    CheapestLater { hours: usize, avg: i64 },
    /// The deadline is reached and no full window fits: starting now.
    DeadlineNoWindow,
    /// Waiting for price data to cover a full window before the deadline.
    WaitingForWindowData,
}

/// The outcome of a scheduling decision for one job.
#[derive(Debug, Clone, Copy, PartialEq, Eq, Structural)]
pub struct Plan {
    /// Whether the job should start at this very tick.
    pub run_now: bool,
    /// When the job is expected to start (Unix seconds).
    pub start_at: Option<i64>,
    /// True when a deadline forced a start that isn't price-optimal.
    pub forced: bool,
    /// Average price of the chosen window (or the current hour), µNOK/kWh.
    pub window_avg_nok: Option<i64>,
    pub reason: PlanReason,
}

impl JobSpec {
    /// Instants within range and a duration that converts to a time span.
    pub open spec fn wf(self) -> bool {
        &&& self.duration_minutes <= MAX_DURATION_MINUTES
        &&& (self.deadline matches Some(d) ==> valid_time(d as int))
        &&& (self.earliest_start matches Some(e) ==> valid_time(e as int))
    }
}

/// The job's duration in seconds (negative durations count as zero).
pub open spec fn duration_secs(spec: JobSpec) -> int {
    if spec.duration_minutes < 0 { 0 } else { spec.duration_minutes * 60 }
}

/// So little time is left before the deadline that the job must start now to
/// have any chance of finishing.
pub open spec fn spec_deadline_forces(deadline: Option<i64>, now: int, duration: int) -> bool {
    deadline matches Some(dl) && dl - now <= duration
}

/// The earliest start still forbids starting.
pub open spec fn spec_before_earliest(spec: JobSpec, now: int) -> bool {
    spec.earliest_start matches Some(e) && now < e
}

/// The NOK price of the hour containing `now`, if known.
pub open spec fn spec_price_now(s: Seq<PricePoint>, now: int) -> Option<i64> {
    match spec_price_at(s, now) {
        Some(p) => Some(p.nok_per_kwh),
        None => None,
    }
}

/// A slot the threshold policy could run in: not over, not entirely before
/// the allowed start, at or below the threshold, and ending by the deadline.
pub open spec fn threshold_slot_ok(q: PricePoint, now: int, not_before: int, max: int, deadline: Option<i64>) -> bool {
    &&& q.end > now
    &&& q.end > not_before
    &&& q.nok_per_kwh <= max
    &&& (deadline matches Some(dl) ==> q.end <= dl)
}

/// `i` is the first slot the threshold policy could run in.
pub open spec fn is_first_threshold_slot(s: Seq<PricePoint>, i: int, now: int, not_before: int, max: int, deadline: Option<i64>) -> bool {
    &&& 0 <= i < s.len()
    &&& threshold_slot_ok(s[i], now, not_before, max, deadline)
    &&& forall|j: int| 0 <= j < i ==> !threshold_slot_ok(#[trigger] s[j], now, not_before, max, deadline)
}

pub open spec fn max3(a: int, b: int, c: int) -> int {
    let ab = if a > b { a } else { b };
    if ab > c { ab } else { c }
}

/// The projected start of a waiting threshold job: the first eligible slot,
/// clamped to the allowed start and to now.
pub open spec fn spec_next_threshold_start(s: Seq<PricePoint>, now: int, not_before: int, max: int, deadline: Option<i64>) -> Option<i64> {
    if exists|i: int| is_first_threshold_slot(s, i, now, not_before, max, deadline) {
        let i = choose|i: int| is_first_threshold_slot(s, i, now, not_before, max, deadline);
        Some(max3(s[i].start as int, not_before, now) as i64)
    } else {
        None
    }
}

pub open spec fn spec_plan_threshold(spec: JobSpec, s: Seq<PricePoint>, now: int, max: i64) -> Plan {
    let held_back = spec_before_earliest(spec, now);
    if spec_deadline_forces(spec.deadline, now, duration_secs(spec)) && !held_back {
        Plan {
            run_now: true,
            start_at: Some(now as i64),
            forced: true,
            window_avg_nok: spec_price_now(s, now),
            reason: PlanReason::DeadlineDespitePrice,
        }
    } else {
        match spec_price_at(s, now) {
            Some(p) => if p.nok_per_kwh <= max && !held_back {
                Plan {
                    run_now: true,
                    start_at: Some(now as i64),
                    forced: false,
                    window_avg_nok: Some(p.nok_per_kwh),
                    reason: PlanReason::BelowThreshold { price: p.nok_per_kwh, max },
                }
            } else {
                let not_before = match spec.earliest_start {
                    Some(e) => e as int,
                    None => now,
                };
                Plan {
                    run_now: false,
                    start_at: spec_next_threshold_start(s, now, not_before, max as int, spec.deadline),
                    forced: false,
                    window_avg_nok: Some(p.nok_per_kwh),
                    reason: if held_back && p.nok_per_kwh <= max {
                        PlanReason::PriceFineButEarly { price: p.nok_per_kwh }
                    } else {
                        PlanReason::AboveThreshold { price: p.nok_per_kwh, max }
                    },
                }
            },
            None => Plan {
                run_now: false,
                start_at: None,
                forced: false,
                window_avg_nok: None,
                reason: PlanReason::NoCurrentPrice,
            },
        }
    }
}

/// Windows may not start before the current hour, nor before an explicit
/// earliest start (which is not floored).
pub open spec fn spec_window_floor(spec: JobSpec, now: int) -> int {
    match spec.earliest_start {
        Some(e) => if e > spec_hour_floor(now) { e as int } else { spec_hour_floor(now) },
        None => spec_hour_floor(now),
    }
}

pub open spec fn spec_plan_cheapest(spec: JobSpec, s: Seq<PricePoint>, now: int) -> Plan {
    let k = spec_slots_for(spec.duration_minutes as int);
    let forced = spec_deadline_forces(spec.deadline, now, duration_secs(spec)) && !spec_before_earliest(spec, now);
    match spec_cheapest_window(s, spec_window_floor(spec, now), spec.deadline, k) {
        Some(w) => {
            let starts_now = w.start <= now;
            Plan {
                run_now: starts_now || forced,
                start_at: if forced && !starts_now { Some(now as i64) } else { Some(w.start) },
                forced,
                window_avg_nok: Some(w.avg_nok),
                reason: if starts_now {
                    PlanReason::CheapestStartsNow { hours: k as usize, avg: w.avg_nok }
                } else if forced {
                    PlanReason::DeadlineBestEffort
                } else {
                    PlanReason::CheapestLater { hours: k as usize, avg: w.avg_nok }
                },
            }
        },
        None => if forced {
            Plan {
                run_now: true,
                start_at: Some(now as i64),
                forced: true,
                window_avg_nok: spec_price_now(s, now),
                reason: PlanReason::DeadlineNoWindow,
            }
        } else {
            Plan {
                run_now: false,
                start_at: None,
                forced: false,
                window_avg_nok: None,
                reason: PlanReason::WaitingForWindowData,
            }
        },
    }
}

/// The plan for `spec` against prices `s` at instant `now`.
pub open spec fn spec_plan(spec: JobSpec, s: Seq<PricePoint>, now: int) -> Plan {
    match spec.policy {
        Policy::Immediate => if spec_before_earliest(spec, now) {
            Plan {
                run_now: false,
                start_at: spec.earliest_start,
                forced: false,
                window_avg_nok: None,
                reason: PlanReason::WaitingForEarliestStart,
            }
        } else {
            Plan {
                run_now: true,
                start_at: Some(now as i64),
                forced: false,
                window_avg_nok: spec_price_now(s, now),
                reason: PlanReason::Immediate,
            }
        },
        Policy::Threshold { max_nok_per_kwh } => spec_plan_threshold(spec, s, now, max_nok_per_kwh),
        Policy::CheapestWindow => spec_plan_cheapest(spec, s, now),
    }
}

fn deadline_forces(deadline: Option<i64>, now: i64, duration: i64) -> (b: bool)
    requires
        valid_time(now as int),
        deadline matches Some(d) ==> valid_time(d as int),
    ensures
        b == spec_deadline_forces(deadline, now as int, duration as int),
{
    match deadline {
        Some(dl) => dl - now <= duration,
        None => false,
    }
}

fn before_earliest(spec: &JobSpec, now: i64) -> (b: bool)
    ensures
        b == spec_before_earliest(*spec, now as int),
{
    match spec.earliest_start {
        Some(e) => now < e,
        None => false,
    }
}

fn price_now(prices: &PriceSeries, now: i64) -> (r: Option<i64>)
    ensures
        r == spec_price_now(prices.points@, now as int),
{
    match prices.price_at(now) {
        Some(p) => Some(p.nok_per_kwh),
        None => None,
    }
}

/// Decide whether and when `spec` should run, given `prices` and the current
/// time `now`.
pub fn plan(spec: &JobSpec, prices: &PriceSeries, now: i64) -> (p: Plan)
    requires
        spec.wf(),
        prices.wf(),
        valid_time(now as int),
    ensures
        p == spec_plan(*spec, prices.points@, now as int),
{
    let duration: i64 = if spec.duration_minutes < 0 { 0 } else { spec.duration_minutes * 60 };
    match spec.policy {
        Policy::Immediate => {
            if before_earliest(spec, now) {
                Plan {
                    run_now: false,
                    start_at: spec.earliest_start,
                    forced: false,
                    window_avg_nok: None,
                    reason: PlanReason::WaitingForEarliestStart,
                }
            } else {
                Plan {
                    run_now: true,
                    start_at: Some(now),
                    forced: false,
                    window_avg_nok: price_now(prices, now),
                    reason: PlanReason::Immediate,
                }
            }
        },
        Policy::Threshold { max_nok_per_kwh } => plan_threshold(spec, prices, now, max_nok_per_kwh, duration),
        Policy::CheapestWindow => plan_cheapest(spec, prices, now, duration),
    }
}

fn plan_threshold(spec: &JobSpec, prices: &PriceSeries, now: i64, max: i64, duration: i64) -> (p: Plan)
    requires
        spec.wf(),
        prices.wf(),
        valid_time(now as int),
        duration == duration_secs(*spec),
    ensures
        p == spec_plan_threshold(*spec, prices.points@, now as int, max),
{
    let held_back = before_earliest(spec, now);
    if deadline_forces(spec.deadline, now, duration) && !held_back {
        return Plan {
            run_now: true,
            start_at: Some(now),
            forced: true,
            window_avg_nok: price_now(prices, now),
            reason: PlanReason::DeadlineDespitePrice,
        };
    }
    match prices.price_at(now) {
        Some(p) => {
            if p.nok_per_kwh <= max && !held_back {
                Plan {
                    run_now: true,
                    start_at: Some(now),
                    forced: false,
                    window_avg_nok: Some(p.nok_per_kwh),
                    reason: PlanReason::BelowThreshold { price: p.nok_per_kwh, max },
                }
            } else {
                let not_before = match spec.earliest_start {
                    Some(e) => e,
                    None => now,
                };
                let next = next_threshold_start(prices, now, not_before, max, spec.deadline);
                let reason = if held_back && p.nok_per_kwh <= max {
                    PlanReason::PriceFineButEarly { price: p.nok_per_kwh }
                } else {
                    PlanReason::AboveThreshold { price: p.nok_per_kwh, max }
                };
                Plan { run_now: false, start_at: next, forced: false, window_avg_nok: Some(p.nok_per_kwh), reason }
            }
        },
        None => Plan {
            run_now: false,
            start_at: None,
            forced: false,
            window_avg_nok: None,
            reason: PlanReason::NoCurrentPrice,
        },
    }
}

fn next_threshold_start(prices: &PriceSeries, now: i64, not_before: i64, max: i64, deadline: Option<i64>) -> (r: Option<i64>)
    ensures
        r == spec_next_threshold_start(prices.points@, now as int, not_before as int, max as int, deadline),
{
    let pts = &prices.points;
    let n = pts.len();
    let mut i: usize = 0;
    while i < n
        invariant
            n == pts.len(),
            pts == &prices.points,
            0 <= i <= n,
            forall|j: int| 0 <= j < i ==> !threshold_slot_ok(#[trigger] pts@[j], now as int, not_before as int, max as int, deadline),
        decreases n - i,
    {
        let q = pts[i];
        let ok = q.end > now && q.end > not_before && q.nok_per_kwh <= max && match deadline {
            Some(dl) => q.end <= dl,
            None => true,
        };
        if ok {
            proof {
                assert(threshold_slot_ok(q, now as int, not_before as int, max as int, deadline));
                assert(is_first_threshold_slot(pts@, i as int, now as int, not_before as int, max as int, deadline));
                let c = choose|c: int| is_first_threshold_slot(pts@, c, now as int, not_before as int, max as int, deadline);
                if c < i {
                    assert(!threshold_slot_ok(pts@[c], now as int, not_before as int, max as int, deadline));
                } else if c > i {
                    assert(!threshold_slot_ok(pts@[i as int], now as int, not_before as int, max as int, deadline));
                }
            }
            let a = if q.start > not_before { q.start } else { not_before };
            let b = if a > now { a } else { now };
            return Some(b);
        }
        i = i + 1;
    }
    proof {
        assert forall|c: int| !is_first_threshold_slot(pts@, c, now as int, not_before as int, max as int, deadline) by {
            if 0 <= c < n {
                assert(!threshold_slot_ok(pts@[c], now as int, not_before as int, max as int, deadline));
            }
        }
    }
    None
}

fn plan_cheapest(spec: &JobSpec, prices: &PriceSeries, now: i64, duration: i64) -> (p: Plan)
    requires
        spec.wf(),
        prices.wf(),
        valid_time(now as int),
        duration == duration_secs(*spec),
    ensures
        p == spec_plan_cheapest(*spec, prices.points@, now as int),
{
    let k = slots_for(spec.duration_minutes);
    let floor = hour_floor(now);
    let earliest = match spec.earliest_start {
        Some(e) => if e > floor { e } else { floor },
        None => floor,
    };
    let forced = deadline_forces(spec.deadline, now, duration) && !before_earliest(spec, now);
    match cheapest_window(prices, earliest, spec.deadline, k) {
        Some(w) => {
            let starts_now = w.start <= now;
            let run_now = starts_now || forced;
            let start_at = if forced && !starts_now { Some(now) } else { Some(w.start) };
            let reason = if starts_now {
                PlanReason::CheapestStartsNow { hours: k, avg: w.avg_nok }
            } else if forced {
                PlanReason::DeadlineBestEffort
            } else {
                PlanReason::CheapestLater { hours: k, avg: w.avg_nok }
            };
            Plan { run_now, start_at, forced, window_avg_nok: Some(w.avg_nok), reason }
        },
        None => {
            if forced {
                Plan {
                    run_now: true,
                    start_at: Some(now),
                    forced: true,
                    window_avg_nok: price_now(prices, now),
                    reason: PlanReason::DeadlineNoWindow,
                }
            } else {
                Plan {
                    run_now: false,
                    start_at: None,
                    forced: false,
                    window_avg_nok: None,
                    reason: PlanReason::WaitingForWindowData,
                }
            }
        },
    }
}

/// An earliest start holds every policy back: before it, no plan runs the
/// job — not even a deadline overrides it.
pub proof fn earliest_start_holds_every_policy_back(spec: JobSpec, s: Seq<PricePoint>, now: int)
    requires
        spec_before_earliest(spec, now),
    ensures
        !spec_plan(spec, s, now).run_now,
{
}

/// A planned start never precedes the job's earliest start.
pub proof fn planned_start_respects_earliest_start(spec: JobSpec, s: Seq<PricePoint>, now: int)
    requires
        spec.earliest_start is Some,
        spec_plan(spec, s, now).start_at is Some,
        valid_time(now),
    ensures
        spec_plan(spec, s, now).start_at->0 >= spec.earliest_start->0,
{
    let e = spec.earliest_start->0 as int;
    match spec.policy {
        Policy::Immediate => {}
        Policy::Threshold { max_nok_per_kwh } => {
            let held_back = spec_before_earliest(spec, now);
            if !(spec_deadline_forces(spec.deadline, now, duration_secs(spec)) && !held_back) {
                if let Some(p) = spec_price_at(s, now) {
                    if !(p.nok_per_kwh <= max_nok_per_kwh && !held_back) {
                        let nb = e;
                        let m = max_nok_per_kwh as int;
                        if exists|i: int| is_first_threshold_slot(s, i, now, nb, m, spec.deadline) {
                            let i = choose|i: int| is_first_threshold_slot(s, i, now, nb, m, spec.deadline);
                            assert(max3(s[i].start as int, nb, now) >= nb);
                        }
                    }
                }
            }
        }
        Policy::CheapestWindow => {
            let k = spec_slots_for(spec.duration_minutes as int);
            let floor = spec_window_floor(spec, now);
            assert(floor >= e);
            if let Some(w) = spec_cheapest_window(s, floor, spec.deadline, k) {
                let i = choose|i: int| crate::window::is_best(s, i, k, floor, spec.deadline);
                assert(w.start == s[i].start);
            }
        }
    }
}

/// A plan that is forced by the deadline always runs now.
pub proof fn forced_plans_run_now(spec: JobSpec, s: Seq<PricePoint>, now: int)
    requires
        spec_plan(spec, s, now).forced,
    ensures
        spec_plan(spec, s, now).run_now,
{
}

/// When so little time is left before the deadline that the job must start
/// now to finish, and no earliest start holds it back, every policy runs it.
pub proof fn deadline_forces_a_start(spec: JobSpec, s: Seq<PricePoint>, now: int)
    requires
        spec_deadline_forces(spec.deadline, now, duration_secs(spec)),
        !spec_before_earliest(spec, now),
    ensures
        spec_plan(spec, s, now).run_now,
{
}

/// A threshold job that runs unforced runs only at a price at or below its
/// threshold.
pub proof fn threshold_runs_only_when_cheap_enough(spec: JobSpec, s: Seq<PricePoint>, now: int, max: i64)
    requires
        spec.policy == (Policy::Threshold { max_nok_per_kwh: max }),
        spec_plan(spec, s, now).run_now,
        !spec_plan(spec, s, now).forced,
    ensures
        spec_price_now(s, now) matches Some(price) && price <= max,
{
}

/// A cheapest-window job that runs unforced runs in the cheapest eligible
/// window, which has begun by now.
pub proof fn cheapest_runs_only_in_its_window(spec: JobSpec, s: Seq<PricePoint>, now: int)
    requires
        spec.policy == Policy::CheapestWindow,
        spec_plan(spec, s, now).run_now,
        !spec_plan(spec, s, now).forced,
    ensures
        spec_cheapest_window(s, spec_window_floor(spec, now), spec.deadline,
            spec_slots_for(spec.duration_minutes as int)) matches Some(w) && w.start <= now,
{
}

/// A cheapest-window job with no earliest start (or one already reached by
/// the top of the current hour) may use the hour it is in:
/// when the slot that begins at the top of now's hour starts a window that
/// is cheapest among all windows starting in that hour or later (and ending
/// by the deadline, if any), the job runs now, in that window, whatever the
/// minute of the tick.
pub proof fn cheapest_window_in_the_current_hour_runs_now(spec: JobSpec, s: Seq<PricePoint>, now: int, i: int)
    requires
        spec.policy == Policy::CheapestWindow,
        spec.earliest_start matches Some(e) ==> e <= spec_hour_floor(now),
        sorted_by_start(s),
        0 <= i < s.len(),
        s[i].start == spec_hour_floor(now),
        eligible(s, i, spec_slots_for(spec.duration_minutes as int), spec_hour_floor(now), spec.deadline),
        forall|j: int| eligible(s, j, spec_slots_for(spec.duration_minutes as int), spec_hour_floor(now), spec.deadline)
            ==> window_sum(s, i, spec_slots_for(spec.duration_minutes as int))
                <= window_sum(s, j, spec_slots_for(spec.duration_minutes as int)),
    ensures
        spec_plan(spec, s, now).run_now,
        spec_plan(spec, s, now).start_at == Some(s[i].start),
        spec_plan(spec, s, now).reason == (PlanReason::CheapestStartsNow {
            hours: spec_slots_for(spec.duration_minutes as int) as usize,
            avg: floor_div(
                window_sum(s, i, spec_slots_for(spec.duration_minutes as int)),
                spec_slots_for(spec.duration_minutes as int),
            ) as i64,
        }),
{
    let k = spec_slots_for(spec.duration_minutes as int);
    let floor = spec_hour_floor(now);
    assert(spec_window_floor(spec, now) == floor);
    assert(floor <= now);
    assert forall|j: int| 0 <= j < i && eligible(s, j, k, floor, spec.deadline)
        implies window_sum(s, i, k) < window_sum(s, j, k) by {
        assert(s[j].start < s[i].start);
    }
    assert(is_best(s, i, k, floor, spec.deadline));
    let b = choose|b: int| is_best(s, b, k, floor, spec.deadline);
    lemma_best_unique(s, b, i, k, floor, spec.deadline);
}

/// A slot a waiting threshold job could start in: not over by `now`, not
/// over by the allowed start `not_before`, priced at or below `max`, and
/// ending by the deadline, if any.
pub open spec fn cheap_enough_slot(q: PricePoint, now: int, not_before: int, max: int, deadline: Option<i64>) -> bool {
    &&& q.end > now
    &&& q.end > not_before
    &&& q.nok_per_kwh <= max
    &&& (deadline matches Some(dl) ==> q.end <= dl)
}

/// A threshold job that is waiting (with slots sorted by start, each ending
/// after it begins) is projected to start inside a known slot priced at or
/// below its threshold, no earlier than now and its earliest start, and,
/// with a deadline, in a slot that ends by it; and no such slot offers an
/// earlier start. With no projected start, no such slot exists.
pub proof fn waiting_threshold_jobs_start_in_a_cheap_slot(spec: JobSpec, s: Seq<PricePoint>, now: int, max: i64)
    requires
        spec.policy == (Policy::Threshold { max_nok_per_kwh: max }),
        valid_time(now),
        sorted_by_start(s),
        forall|q: int| 0 <= q < s.len() ==> (#[trigger] s[q]).start < s[q].end,
        spec_price_at(s, now) is Some,
        !spec_plan(spec, s, now).run_now,
    ensures
        ({
            let nb = match spec.earliest_start {
                Some(e) => e as int,
                None => now,
            };
            match spec_plan(spec, s, now).start_at {
                Some(t) => {
                    &&& exists|q: int| 0 <= q < s.len() && #[trigger] s[q].start <= t < s[q].end
                        && cheap_enough_slot(s[q], now, nb, max as int, spec.deadline)
                    &&& t >= now
                    &&& t >= nb
                    &&& forall|q: int| 0 <= q < s.len() && cheap_enough_slot(#[trigger] s[q], now, nb, max as int, spec.deadline)
                        ==> t <= s[q].start || t == now || t == nb
                },
                None => forall|q: int| 0 <= q < s.len() ==> !cheap_enough_slot(#[trigger] s[q], now, nb, max as int, spec.deadline),
            }
        }),
{
    let nb = match spec.earliest_start {
        Some(e) => e as int,
        None => now,
    };
    let m = max as int;
    if exists|i: int| is_first_threshold_slot(s, i, now, nb, m, spec.deadline) {
        let i = choose|i: int| is_first_threshold_slot(s, i, now, nb, m, spec.deadline);
        let t = spec_plan(spec, s, now).start_at->0;
        assert(t as int == max3(s[i].start as int, nb, now));
        assert(s[i].start <= t < s[i].end && cheap_enough_slot(s[i], now, nb, m, spec.deadline));
        assert forall|q: int| 0 <= q < s.len() && cheap_enough_slot(#[trigger] s[q], now, nb, m, spec.deadline)
            implies t <= s[q].start || t == now || t == nb by {
            if q < i {
                assert(!threshold_slot_ok(s[q], now, nb, m, spec.deadline));
            } else if q > i {
                assert(s[i].start < s[q].start);
            }
        }
    } else {
        assert forall|q: int| 0 <= q < s.len() implies !cheap_enough_slot(#[trigger] s[q], now, nb, m, spec.deadline) by {
            if cheap_enough_slot(s[q], now, nb, m, spec.deadline) {
                lemma_first_threshold_slot_exists(s, q, now, nb, m, spec.deadline);
            }
        }
    }
}

proof fn lemma_first_threshold_slot_exists(s: Seq<PricePoint>, q: int, now: int, nb: int, m: int, deadline: Option<i64>)
    requires
        0 <= q < s.len(),
        threshold_slot_ok(s[q], now, nb, m, deadline),
    ensures
        exists|i: int| is_first_threshold_slot(s, i, now, nb, m, deadline),
    decreases q,
{
    if forall|j: int| 0 <= j < q ==> !threshold_slot_ok(#[trigger] s[j], now, nb, m, deadline) {
        assert(is_first_threshold_slot(s, q, now, nb, m, deadline));
    } else {
        let j = choose|j: int| 0 <= j < q && threshold_slot_ok(#[trigger] s[j], now, nb, m, deadline);
        lemma_first_threshold_slot_exists(s, j, now, nb, m, deadline);
    }
}

} // verus!
