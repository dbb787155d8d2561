//! Replaying historical prices through the planner: what representative
//! recurring jobs would have cost run at no particular time ("typical"),
//! scheduled with the foresight the live system has ("spotwatt"), and with
//! perfect foresight ("oracle").

use vstd::prelude::*;
use vstd::string::*;

use crate::cost::{interval_cost, spec_interval_cost};
use crate::form::{all_digits, digits_value, is_ascii_digit};
use crate::job::{JobSpec, Policy};
use crate::price::{all_valid, sorted_by_start, sum_nok, PricePoint, PriceSeries};
use crate::schedule::{plan, spec_plan};
use crate::text::{append_decimal, spec_decimal, str_eq};
use crate::time::{oslo_clock, oslo_from_local, oslo_local_instants, oslo_wall_clock, valid_day, EPOCH_DAY, MAX_DAY_OFFSET};
use crate::units::{floor_div, valid_time, valid_watts, MAX_DURATION_MINUTES, MAX_PRICE, MAX_TIME, MAX_WATTS, SECS_PER_HOUR};
use crate::window::{cheapest_window, slots_for, spec_cheapest_window, spec_slots_for};

verus! {

// ---------------------------------------------------------------------------
// Dates
// ---------------------------------------------------------------------------

/// A calendar date, as days from the common era (0001-01-01 is day 1).
#[derive(Debug, Clone, Copy, PartialEq, Eq, Structural)]
pub struct LocalDate {
    pub days_from_ce: i32,
}

/// A date type that can step to the following day.
pub trait NextDay: Sized {
    /// Whether the following day is still a handled date.
    spec fn has_next(&self) -> bool;

    /// The following day.
    spec fn following(&self) -> Self;

    fn next_day(self) -> (r: Self)
        requires
            self.has_next(),
        ensures
            r == self.following();
}

impl NextDay for LocalDate {
    open spec fn has_next(&self) -> bool {
        self.days_from_ce < EPOCH_DAY + MAX_DAY_OFFSET
    }

    open spec fn following(&self) -> Self {
        LocalDate { days_from_ce: (self.days_from_ce + 1) as i32 }
    }

    fn next_day(self) -> (r: Self) {
        LocalDate { days_from_ce: self.days_from_ce + 1 }
    }
}

/// The day after `d`.
pub fn next<T: NextDay>(d: T) -> (r: T)
    requires
        d.has_next(),
    ensures
        r == d.following(),
{
    d.next_day()
}

/// The date `days` days before `today`, when it is a handled date.
pub fn days_before(today: LocalDate, days: u64) -> (r: Option<LocalDate>)
    requires
        valid_day(today.days_from_ce as int),
    ensures
        r == (if valid_day(today.days_from_ce - days) {
            Some(LocalDate { days_from_ce: (today.days_from_ce - days) as i32 })
        } else {
            None::<LocalDate>
        }),
{
    if days > (2 * MAX_DAY_OFFSET) as u64 {
        return None;
    }
    let d: i64 = today.days_from_ce as i64 - days as i64;
    if (EPOCH_DAY - MAX_DAY_OFFSET) as i64 <= d && d <= (EPOCH_DAY + MAX_DAY_OFFSET) as i64 {
        Some(LocalDate { days_from_ce: d as i32 })
    } else {
        None
    }
}

/// The earliest instant at which Oslo clocks show `hour`:00 on `day`.
pub open spec fn spec_oslo_dt(day: int, hour: u32) -> Option<i64> {
    match oslo_from_local(day as i32, hour, 0, 0) {
        Some((first, _)) => Some(first),
        None => None,
    }
}

fn oslo_dt(day: i32, hour: u32) -> (r: Option<i64>)
    ensures
        r == spec_oslo_dt(day as int, hour),
{
    match oslo_local_instants(day, hour, 0, 0) {
        Some((first, _)) => Some(first),
        None => None,
    }
}

// ---------------------------------------------------------------------------
// Foresight
// ---------------------------------------------------------------------------

/// End (exclusive) of the prices known at instant `t`: all of today's
/// Oslo-local prices, plus tomorrow's once it is 13:00 Oslo or later — the
/// next-but-one local midnight, or the one after.
pub open spec fn spec_known_horizon_end(t: i64) -> Option<i64> {
    let (day, hour, _) = oslo_clock(t);
    let last = if hour >= 13 { day + 1 } else { day as int };
    spec_oslo_dt(last + 1, 0)
}

pub fn known_horizon_end(t: i64) -> (r: Option<i64>)
    requires
        valid_time(t as int),
    ensures
        r == spec_known_horizon_end(t),
{
    let (day, hour, _) = oslo_wall_clock(t);
    let last = if hour >= 13 { day + 1 } else { day };
    oslo_dt(last + 1, 0)
}

/// The points starting before `horizon_end`: what is known at that point.
pub open spec fn points_before(s: Seq<PricePoint>, horizon_end: int) -> Seq<PricePoint>
    decreases s.len(),
{
    if s.len() == 0 {
        s
    } else {
        let r = points_before(s.drop_last(), horizon_end);
        if s.last().start < horizon_end { r.push(s.last()) } else { r }
    }
}

/// The points starting within `[from, until)`, in order.
pub open spec fn points_within(s: Seq<PricePoint>, from: int, until: int) -> Seq<PricePoint>
    decreases s.len(),
{
    if s.len() == 0 {
        s
    } else {
        let r = points_within(s.drop_last(), from, until);
        if from <= s.last().start < until { r.push(s.last()) } else { r }
    }
}

/// Prices restricted to those starting before `horizon_end` (the rest is
/// not yet known).
pub fn truncate(full: &PriceSeries, horizon_end: i64) -> (r: PriceSeries)
    requires
        full.wf(),
    ensures
        r.wf(),
        r.points@ == points_before(full.points@, horizon_end as int),
{
    let n = full.points.len();
    let mut out: Vec<PricePoint> = Vec::new();
    let mut i: usize = 0;
    proof {
        assert(full.points@.subrange(0, 0) =~= Seq::<PricePoint>::empty());
    }
    while i < n
        invariant
            n == full.points@.len(),
            full.wf(),
            0 <= i <= n,
            out@ == points_before(full.points@.subrange(0, i as int), horizon_end as int),
            out@.len() <= i,
            all_valid(out@),
            sorted_by_start(out@),
            forall|a: int, k: int| 0 <= a < out@.len() && i <= k < n ==> (#[trigger] out@[a]).start < (#[trigger] full.points@[k]).start,
        decreases n - i,
    {
        let p = full.points[i];
        proof {
            let pre = full.points@.subrange(0, i + 1);
            assert(pre.drop_last() =~= full.points@.subrange(0, i as int));
            assert(pre.last() == p);
        }
        if p.start < horizon_end {
            out.push(p);
        }
        i = i + 1;
    }
    proof {
        assert(full.points@.subrange(0, n as int) =~= full.points@);
    }
    PriceSeries { points: out }
}

/// The prices known at instant `t`: up to the known horizon, or only those
/// already begun when the horizon can't be placed.
pub open spec fn known_prices(s: Seq<PricePoint>, t: i64) -> Seq<PricePoint> {
    match spec_known_horizon_end(t) {
        Some(h) => points_before(s, h as int),
        None => points_before(s, t as int),
    }
}

/// Mean µNOK/kWh (rounded down) over the hours starting within
/// `[from, until)`, or none when there are none.
pub open spec fn spec_avg_over(s: Seq<PricePoint>, from: int, until: int) -> Option<int> {
    let sel = points_within(s, from, until);
    if sel.len() == 0 {
        None
    } else {
        Some(sum_nok(sel) / (sel.len() as int))
    }
}

pub fn avg_over(full: &PriceSeries, from: i64, until: i64) -> (r: Option<i64>)
    requires
        full.wf(),
    ensures
        r == (match spec_avg_over(full.points@, from as int, until as int) {
            Some(a) => Some(a as i64),
            None => None::<i64>,
        }),
        r matches Some(a) ==> -MAX_PRICE <= a <= MAX_PRICE && spec_avg_over(full.points@, from as int, until as int) == Some(a as int),
{
    let n = full.points.len();
    let mut sum: i128 = 0;
    let mut count: usize = 0;
    let mut i: usize = 0;
    proof {
        assert(full.points@.subrange(0, 0) =~= Seq::<PricePoint>::empty());
    }
    while i < n
        invariant
            n == full.points@.len(),
            full.wf(),
            0 <= i <= n,
            sum == sum_nok(points_within(full.points@.subrange(0, i as int), from as int, until as int)),
            count == points_within(full.points@.subrange(0, i as int), from as int, until as int).len(),
            count <= i,
            -(count as int) * MAX_PRICE <= sum <= (count as int) * MAX_PRICE,
        decreases n - i,
    {
        let p = full.points[i];
        proof {
            let pre = full.points@.subrange(0, i + 1);
            assert(pre.drop_last() =~= full.points@.subrange(0, i as int));
            assert(pre.last() == p);
            assert(p.valid());
            let r = points_within(full.points@.subrange(0, i as int), from as int, until as int);
            assert(r.push(p).drop_last() =~= r);
        }
        if from <= p.start && p.start < until {
            sum = sum + p.nok_per_kwh as i128;
            count = count + 1;
        }
        i = i + 1;
    }
    proof {
        assert(full.points@.subrange(0, n as int) =~= full.points@);
    }
    if count == 0 {
        None
    } else {
        proof {
            lemma_mean_bounded(sum as int, count as int);
        }
        Some((crate::units::div_floor(sum, count as i128)) as i64)
    }
}

proof fn lemma_mean_bounded(sum: int, count: int)
    requires
        count >= 1,
        -count * MAX_PRICE <= sum <= count * MAX_PRICE,
    ensures
        -MAX_PRICE <= sum / count <= MAX_PRICE,
{
    vstd::arithmetic::div_mod::lemma_div_is_ordered(sum, count * MAX_PRICE, count);
    vstd::arithmetic::div_mod::lemma_div_is_ordered(-count * MAX_PRICE, sum, count);
    assert((count * MAX_PRICE) / count == MAX_PRICE) by {
        vstd::arithmetic::div_mod::lemma_div_multiples_vanish(MAX_PRICE as int, count);
        assert(count * MAX_PRICE == MAX_PRICE * count) by (nonlinear_arith);
    }
    assert((-count * MAX_PRICE) / count == -MAX_PRICE) by {
        vstd::arithmetic::div_mod::lemma_div_multiples_vanish(-MAX_PRICE, count);
        assert(-count * MAX_PRICE == -MAX_PRICE * count) by (nonlinear_arith);
    }
}

// ---------------------------------------------------------------------------
// The simulation
// ---------------------------------------------------------------------------

/// A representative recurring job.
#[derive(Debug, Clone)]
pub struct DemoJob {
    pub name: String,
    pub duration_minutes: i64,
    /// Oslo-local hour the job must finish by.
    pub deadline_hour: u32,
    /// Average power draw, watts.
    pub power_watts: i64,
    /// How long before the deadline the job becomes available to run.
    pub window_hours: i64,
}

/// What one job would have cost over the simulated days, µNOK, and over how
/// many days.
#[derive(Debug, Clone, Copy, PartialEq, Eq, Structural)]
pub struct JobResult {
    pub typical: i128,
    pub spotwatt: i128,
    pub oracle: i128,
    pub runs: u32,
}

/// The jobs the backtest replays.
pub fn demo_jobs() -> (jobs: Vec<DemoJob>)
    ensures
        jobs@.len() == 4,
        jobs@[0].name@ == "nightly-backup"@ && jobs@[0].duration_minutes == 45 && jobs@[0].deadline_hour == 7
            && jobs@[0].power_watts == 60 && jobs@[0].window_hours == 24,
        jobs@[1].name@ == "photo-dedup"@ && jobs@[1].duration_minutes == 90 && jobs@[1].deadline_hour == 8
            && jobs@[1].power_watts == 90 && jobs@[1].window_hours == 24,
        jobs@[2].name@ == "media-transcode"@ && jobs@[2].duration_minutes == 180 && jobs@[2].deadline_hour == 8
            && jobs@[2].power_watts == 120 && jobs@[2].window_hours == 24,
        jobs@[3].name@ == "llm-finetune"@ && jobs@[3].duration_minutes == 360 && jobs@[3].deadline_hour == 9
            && jobs@[3].power_watts == 250 && jobs@[3].window_hours == 24,
{
    let mut jobs: Vec<DemoJob> = Vec::new();
    jobs.push(DemoJob { name: String::from_str("nightly-backup"), duration_minutes: 45, deadline_hour: 7, power_watts: 60, window_hours: 24 });
    jobs.push(DemoJob { name: String::from_str("photo-dedup"), duration_minutes: 90, deadline_hour: 8, power_watts: 90, window_hours: 24 });
    jobs.push(DemoJob { name: String::from_str("media-transcode"), duration_minutes: 180, deadline_hour: 8, power_watts: 120, window_hours: 24 });
    jobs.push(DemoJob { name: String::from_str("llm-finetune"), duration_minutes: 360, deadline_hour: 9, power_watts: 250, window_hours: 24 });
    jobs
}

/// A replayable job: a duration that converts to a time span, a real
/// hour, and a draw within range.
pub open spec fn demo_ok(job: DemoJob) -> bool {
    &&& -MAX_DURATION_MINUTES <= job.duration_minutes <= MAX_DURATION_MINUTES
    &&& job.deadline_hour < 24
    &&& valid_watts(job.power_watts as int)
}

/// The planner's view of one instance of the job, due at `deadline`.
pub open spec fn instance_spec(job: DemoJob, deadline: i64) -> JobSpec {
    JobSpec {
        policy: Policy::CheapestWindow,
        duration_minutes: job.duration_minutes,
        deadline: Some(deadline),
        earliest_start: None,
    }
}

/// The live scheduler's decision loop replayed from `t`: each hour up to
/// the deadline, plan with only the prices known then; the start chosen at
/// the first hour the plan says to run (none if it never does).
pub open spec fn realistic_from(s: Seq<PricePoint>, spec: JobSpec, t: int, deadline: int) -> Option<i64>
    decreases deadline - t + SECS_PER_HOUR,
{
    if t > deadline {
        None
    } else {
        let p = spec_plan(spec, known_prices(s, t as i64), t);
        if p.run_now {
            Some(match p.start_at {
                Some(x) => x,
                None => t as i64,
            })
        } else {
            realistic_from(s, spec, t + SECS_PER_HOUR, deadline)
        }
    }
}

/// When the live scheduler, with its realistic foresight, would have started
/// the instance released at `release` and due at `deadline` (just in time,
/// should it never decide to).
pub open spec fn spec_realistic_start(s: Seq<PricePoint>, job: DemoJob, release: i64, deadline: i64) -> int {
    match realistic_from(s, instance_spec(job, deadline), release as int, deadline as int) {
        Some(x) => x as int,
        None => deadline - job.duration_minutes * 60,
    }
}

/// Replay the live scheduler's decision loop for one job instance: step
/// hour by hour, each time calling `plan` with only the prices that would
/// have been known at that moment, and return the start it chooses.
pub fn realistic_start(full: &PriceSeries, job: &DemoJob, release: i64, deadline: i64) -> (r: i64)
    requires
        full.wf(),
        demo_ok(*job),
        valid_time(release as int),
        valid_time(deadline as int),
    ensures
        r == spec_realistic_start(full.points@, *job, release, deadline),
{
    let spec = JobSpec {
        policy: Policy::CheapestWindow,
        duration_minutes: job.duration_minutes,
        deadline: Some(deadline),
        earliest_start: None,
    };
    let ghost target = realistic_from(full.points@, spec, release as int, deadline as int);
    let mut t = release;
    while t <= deadline
        invariant
            full.wf(),
            demo_ok(*job),
            spec == instance_spec(*job, deadline),
            valid_time(release as int),
            valid_time(deadline as int),
            release <= t,
            t <= deadline + SECS_PER_HOUR || t == release,
            realistic_from(full.points@, spec, t as int, deadline as int) == target,
            target == realistic_from(full.points@, spec, release as int, deadline as int),
        decreases deadline - t + SECS_PER_HOUR,
    {
        let horizon = match known_horizon_end(t) {
            Some(h) => h,
            None => t,
        };
        let known = truncate(full, horizon);
        assert(known.points@ == known_prices(full.points@, t));
        let decision = plan(&spec, &known, t);
        assert(realistic_from(full.points@, spec, t as int, deadline as int) == (if decision.run_now {
            Some(match decision.start_at { Some(x) => x, None => t })
        } else {
            realistic_from(full.points@, spec, t + SECS_PER_HOUR, deadline as int)
        }));
        if decision.run_now {
            let r = match decision.start_at {
                Some(x) => x,
                None => t,
            };
            assert(target == Some(r));
            return r;
        }
        t = t + SECS_PER_HOUR;
    }
    deadline - job.duration_minutes * 60
}

/// `a + b`, held to the range of `i128`.
pub open spec fn sat_add(a: int, b: int) -> int {
    if a + b > i128::MAX {
        i128::MAX as int
    } else if a + b < i128::MIN {
        i128::MIN as int
    } else {
        a + b
    }
}

fn add_saturating(a: i128, b: i128) -> (r: i128)
    ensures
        r == sat_add(a as int, b as int),
{
    if b > 0 && a > i128::MAX - b {
        i128::MAX
    } else if b < 0 && a < i128::MIN - b {
        i128::MIN
    } else {
        a + b
    }
}

/// The costs of one day's instance, µNOK: `(typical, oracle, spotwatt)`.
/// Typical is the draw over the run at the release-to-deadline average
/// price; oracle the cheapest window in hindsight; spotwatt the realistic
/// start. None — the day is skipped — when the deadline can't be placed or
/// leaves the handled range, or any of the three can't be priced.
pub open spec fn day_outcome(s: Seq<PricePoint>, job: DemoJob, d: int) -> Option<(int, int, int)> {
    let dur = job.duration_minutes * 60;
    match spec_oslo_dt(d, job.deadline_hour) {
        None => None,
        Some(deadline) => {
            let release = deadline - job.window_hours * SECS_PER_HOUR;
            if !valid_time(deadline as int) || !valid_time(release) {
                None
            } else {
                match spec_avg_over(s, release, deadline as int) {
                    None => None,
                    Some(avg) => {
                        let typical = floor_div(job.power_watts * job.duration_minutes * avg, 60_000);
                        match spec_cheapest_window(s, release, Some(deadline), spec_slots_for(job.duration_minutes as int)) {
                            None => None,
                            Some(w) => if !valid_time(w.start + dur) {
                                None
                            } else {
                                match spec_interval_cost(s, w.start as int, w.start + dur, job.power_watts as int) {
                                    None => None,
                                    Some(oracle) => {
                                        let st = spec_realistic_start(s, job, release as i64, deadline);
                                        if !valid_time(st) || !valid_time(st + dur) {
                                            None
                                        } else {
                                            match spec_interval_cost(s, st, st + dur, job.power_watts as int) {
                                                None => None,
                                                Some(sw) => Some((typical, oracle, sw)),
                                            }
                                        }
                                    },
                                }
                            },
                        }
                    },
                }
            }
        },
    }
}

/// Totals over the `n` days from `first` on.
pub open spec fn sim_totals(s: Seq<PricePoint>, job: DemoJob, first: int, n: int) -> JobResult
    decreases n,
{
    if n <= 0 {
        JobResult { typical: 0, spotwatt: 0, oracle: 0, runs: 0 }
    } else {
        let r = sim_totals(s, job, first, n - 1);
        match day_outcome(s, job, first + n - 1) {
            Some((typical, oracle, sw)) => JobResult {
                typical: sat_add(r.typical as int, typical) as i128,
                spotwatt: sat_add(r.spotwatt as int, sw) as i128,
                oracle: sat_add(r.oracle as int, oracle) as i128,
                runs: (r.runs + 1) as u32,
            },
            None => r,
        }
    }
}

/// Simulate one recurring job across every day after `start` up to `end`
/// (the first day is left out so its window has prior-day prices).
pub fn simulate_job(full: &PriceSeries, job: &DemoJob, start: LocalDate, end: LocalDate) -> (r: JobResult)
    requires
        full.wf(),
        demo_ok(*job),
        valid_day(start.days_from_ce as int),
        valid_day(end.days_from_ce as int),
        end.days_from_ce < EPOCH_DAY + MAX_DAY_OFFSET,
    ensures
        r == sim_totals(
            full.points@,
            *job,
            start.days_from_ce + 1,
            if end.days_from_ce > start.days_from_ce { end.days_from_ce - start.days_from_ce } else { 0 },
        ),
{
    let mut out = JobResult { typical: 0, spotwatt: 0, oracle: 0, runs: 0 };
    let k = slots_for(job.duration_minutes);
    let dur: i64 = job.duration_minutes * 60;
    if start.days_from_ce >= EPOCH_DAY + MAX_DAY_OFFSET {
        return out;
    }
    let first = start.days_from_ce + 1;
    let mut d = next(start);
    while d.days_from_ce <= end.days_from_ce
        invariant
            full.wf(),
            demo_ok(*job),
            valid_day(start.days_from_ce as int),
            valid_day(end.days_from_ce as int),
            end.days_from_ce < EPOCH_DAY + MAX_DAY_OFFSET,
            first == start.days_from_ce + 1,
            k == spec_slots_for(job.duration_minutes as int),
            dur == job.duration_minutes * 60,
            first <= d.days_from_ce <= end.days_from_ce + 1 || (d.days_from_ce == first && first > end.days_from_ce),
            out == sim_totals(full.points@, *job, first as int, d.days_from_ce - first),
            out.runs <= d.days_from_ce - first,
        decreases end.days_from_ce + 1 - d.days_from_ce,
    {
        let ghost n = d.days_from_ce - first;
        proof {
            assert(d.days_from_ce == first + n + 1 - 1);
        }
        let outcome = day_costs(full, job, d.days_from_ce, k, dur);
        match outcome {
            Some((typical, oracle, sw)) => {
                out = JobResult {
                    typical: add_saturating(out.typical, typical),
                    spotwatt: add_saturating(out.spotwatt, sw),
                    oracle: add_saturating(out.oracle, oracle),
                    runs: out.runs + 1,
                };
            },
            None => {},
        }
        d = next(d);
    }
    out
}

/// One day's costs, as `day_outcome` states them.
fn day_costs(full: &PriceSeries, job: &DemoJob, d: i32, k: usize, dur: i64) -> (r: Option<(i128, i128, i128)>)
    requires
        full.wf(),
        demo_ok(*job),
        k == spec_slots_for(job.duration_minutes as int),
        dur == job.duration_minutes * 60,
    ensures
        r == (match day_outcome(full.points@, *job, d as int) {
            Some((a, b, c)) => Some((a as i128, b as i128, c as i128)),
            None => None::<(i128, i128, i128)>,
        }),
        r matches Some((a, b, c)) ==> day_outcome(full.points@, *job, d as int) == Some((a as int, b as int, c as int)),
{
    let deadline = match oslo_dt(d, job.deadline_hour) {
        Some(x) => x,
        None => return None,
    };
    if deadline < -MAX_TIME || deadline > MAX_TIME {
        return None;
    }
    let release_wide: i128 = deadline as i128 - job.window_hours as i128 * SECS_PER_HOUR as i128;
    if release_wide < -MAX_TIME as i128 || release_wide > MAX_TIME as i128 {
        return None;
    }
    let release = release_wide as i64;
    let avg = match avg_over(full, release, deadline) {
        Some(a) => a,
        None => return None,
    };
    assert(-MAX_WATTS * MAX_DURATION_MINUTES * MAX_PRICE <= job.power_watts * job.duration_minutes * avg
        <= MAX_WATTS * MAX_DURATION_MINUTES * MAX_PRICE) by (nonlinear_arith)
        requires
            -MAX_WATTS <= job.power_watts <= MAX_WATTS,
            -MAX_DURATION_MINUTES <= job.duration_minutes <= MAX_DURATION_MINUTES,
            -MAX_PRICE <= avg <= MAX_PRICE,
            MAX_WATTS > 0, MAX_DURATION_MINUTES > 0, MAX_PRICE > 0;
    assert(-MAX_WATTS * MAX_DURATION_MINUTES <= job.power_watts * job.duration_minutes
        <= MAX_WATTS * MAX_DURATION_MINUTES) by (nonlinear_arith)
        requires
            -MAX_WATTS <= job.power_watts <= MAX_WATTS,
            -MAX_DURATION_MINUTES <= job.duration_minutes <= MAX_DURATION_MINUTES,
            MAX_WATTS > 0, MAX_DURATION_MINUTES > 0;
    let typical: i128 = crate::units::div_floor(
        job.power_watts as i128 * job.duration_minutes as i128 * avg as i128,
        60_000,
    );
    let w = match cheapest_window(full, release, Some(deadline), k) {
        Some(w) => w,
        None => return None,
    };
    proof {
        assert(crate::price::all_valid(full.points@));
        assert(full.points@[w.start_index as int].valid());
    }
    let w_end: i128 = w.start as i128 + dur as i128;
    if w_end < -MAX_TIME as i128 || w_end > MAX_TIME as i128 {
        return None;
    }
    let oracle = match interval_cost(full, w.start, w.start + dur, job.power_watts) {
        Some(c) => c,
        None => return None,
    };
    let st = realistic_start(full, job, release, deadline);
    let st_end: i128 = st as i128 + dur as i128;
    if st < -MAX_TIME || st > MAX_TIME || st_end < -MAX_TIME as i128 || st_end > MAX_TIME as i128 {
        return None;
    }
    match interval_cost(full, st, st + dur, job.power_watts) {
        Some(sw) => Some((typical, oracle, sw)),
        None => None,
    }
}

// ---------------------------------------------------------------------------
// Loading and arguments
// ---------------------------------------------------------------------------

/// The points of the cached days within `[start, end]`, day after day in
/// the order given.
pub open spec fn cached_points_upto(days: Seq<(i32, Vec<PricePoint>)>, start: int, end: int, i: int) -> Seq<PricePoint>
    decreases i,
{
    if i <= 0 {
        Seq::empty()
    } else {
        let before = cached_points_upto(days, start, end, i - 1);
        let (d, pts) = days[i - 1];
        if start <= d && d <= end { before + pts@ } else { before }
    }
}

/// Gather the cached points of the days within `[start, end]`.
pub fn cached_points(days: &Vec<(i32, Vec<PricePoint>)>, start: LocalDate, end: LocalDate) -> (r: Vec<PricePoint>)
    ensures
        r@ == cached_points_upto(days@, start.days_from_ce as int, end.days_from_ce as int, days@.len() as int),
{
    let n = days.len();
    let mut out: Vec<PricePoint> = Vec::new();
    let mut i: usize = 0;
    while i < n
        invariant
            n == days@.len(),
            0 <= i <= n,
            out@ == cached_points_upto(days@, start.days_from_ce as int, end.days_from_ce as int, i as int),
        decreases n - i,
    {
        let d = days[i].0;
        if start.days_from_ce <= d && d <= end.days_from_ce {
            let pts = &days[i].1;
            let m = pts.len();
            let mut j: usize = 0;
            let ghost base = out@;
            while j < m
                invariant
                    m == pts@.len(),
                    0 <= j <= m,
                    out@ == base + pts@.subrange(0, j as int),
                decreases m - j,
            {
                out.push(pts[j]);
                proof {
                    assert(pts@.subrange(0, j + 1) =~= pts@.subrange(0, j as int).push(pts@[j as int]));
                    assert(out@ =~= base + pts@.subrange(0, j + 1));
                }
                j = j + 1;
            }
            proof {
                assert(pts@.subrange(0, m as int) =~= pts@);
            }
        }
        i = i + 1;
    }
    out
}

/// What `u64::from_str` gives: an optional `+`, then one or more ASCII
/// digits, within the range of `u64`.
/// `s` without a leading `+`.
pub open spec fn plus_stripped(s: Seq<char>) -> Seq<char> {
    if s.len() > 0 && s[0] == '+' { s.drop_first() } else { s }
}

pub open spec fn spec_parse_u64(s: Seq<char>) -> Option<u64> {
    let digits = plus_stripped(s);
    if digits.len() == 0 || !all_digits(digits) {
        None
    } else if digits_value(digits) <= u64::MAX {
        Some(digits_value(digits) as u64)
    } else {
        None
    }
}

/// Parse a decimal count as `u64::from_str` does.
pub fn parse_u64_text(s: &str) -> (r: Option<u64>)
    ensures
        r == spec_parse_u64(s@),
{
    let n = s.unicode_len();
    if n == 0 {
        return None;
    }
    let start: usize = if s.get_char(0) == '+' { 1 } else { 0 };
    let ghost digits = plus_stripped(s@);
    if start == n {
        return None;
    }
    let limit: u128 = 0xffff_ffff_ffff_ffff;
    let mut acc: u128 = 0;
    let mut over = false;
    let mut i: usize = start;
    proof {
        assert(digits == s@.subrange(start as int, n as int));
    }
    while i < n
        invariant
            n == s@.len(),
            0 <= start <= i <= n,
            start < n,
            digits == s@.subrange(start as int, n as int),
            digits == plus_stripped(s@),
            limit == 0xffff_ffff_ffff_ffffu128,
            forall|k: int| start <= k < i ==> is_ascii_digit(#[trigger] s@[k]),
            !over ==> acc == digits_value(digits.subrange(0, i - start)) && acc <= limit,
            over ==> digits_value(digits.subrange(0, i - start)) > limit,
        decreases n - i,
    {
        let c = s.get_char(i);
        if !('0' <= c && c <= '9') {
            proof {
                assert(digits[i - start] == c);
                assert(!is_ascii_digit(digits[i - start]));
                assert(!all_digits(digits));
            }
            return None;
        }
        let dig = (c as u32 - '0' as u32) as u128;
        proof {
            let p = digits.subrange(0, i + 1 - start);
            assert(p.drop_last() =~= digits.subrange(0, i - start));
            assert(p.last() == c);
            assert forall|k: int| 0 <= k < p.len() implies is_ascii_digit(#[trigger] p[k]) by {
                assert(p[k] == s@[start + k]);
            }
            crate::form::lemma_digits_value_nonneg(p.drop_last());
        }
        if !over {
            let next_acc = acc * 10 + dig;
            if next_acc > limit {
                over = true;
            } else {
                acc = next_acc;
            }
        }
        i = i + 1;
    }
    proof {
        assert(digits.subrange(0, n - start) =~= digits);
        assert forall|k: int| 0 <= k < digits.len() implies is_ascii_digit(#[trigger] digits[k]) by {
            assert(digits[k] == s@[start + k]);
        }
    }
    if over {
        None
    } else {
        Some(acc as u64)
    }
}

/// Region and day count from the command line (the program's name first):
/// `--region R` and `--days N` set them, the last one given winning; a
/// `--days` without a number after it is ignored, as is anything unknown.
pub open spec fn args_from(args: Seq<Seq<char>>, i: int, region: Seq<char>, days: u64) -> (Seq<char>, u64)
    decreases args.len() - i,
{
    if i < 0 || i >= args.len() {
        (region, days)
    } else if args[i] == "--region"@ {
        if i + 1 < args.len() {
            args_from(args, i + 2, args[i + 1], days)
        } else {
            args_from(args, i + 1, region, days)
        }
    } else if args[i] == "--days"@ {
        let v = if i + 1 < args.len() { spec_parse_u64(args[i + 1]) } else { None };
        match v {
            Some(n) => args_from(args, i + 2, region, n),
            None => args_from(args, i + 1, region, days),
        }
    } else {
        args_from(args, i + 1, region, days)
    }
}

/// The backtest's region (default NO1) and number of days (default 365).
pub fn parse_args(args: &Vec<String>) -> (r: (String, u64))
    ensures
        (r.0@, r.1) == args_from(crate::text::views(args@), 1, "NO1"@, 365),
{
    let mut region = String::from_str("NO1");
    let mut days: u64 = 365;
    let n = args.len();
    let mut i: usize = 1;
    let ghost all = crate::text::views(args@);
    while i < n
        invariant
            n == args@.len(),
            all == crate::text::views(args@),
            1 <= i,
            args_from(all, i as int, region@, days) == args_from(all, 1, "NO1"@, 365),
        decreases n - i,
    {
        if str_eq(args[i].as_str(), "--region") {
            if i + 1 < n {
                region = args[i + 1].clone();
                i = i + 1;
            }
        } else if str_eq(args[i].as_str(), "--days") {
            let v = if i + 1 < n { parse_u64_text(args[i + 1].as_str()) } else { None };
            match v {
                Some(d) => {
                    days = d;
                    i = i + 1;
                },
                None => {},
            }
        }
        i = i + 1;
    }
    (region, days)
}

/// A duration as the backtest table writes it: `"Nh"`, `"NhMm"` or `"Mm"`.
pub open spec fn spec_dur_label(minutes: int) -> Seq<char> {
    if minutes % 60 == 0 {
        spec_decimal(minutes / 60) + "h"@
    } else if minutes > 60 {
        spec_decimal(minutes / 60) + "h"@ + spec_decimal(minutes % 60) + "m"@
    } else {
        spec_decimal(minutes) + "m"@
    }
}

pub fn dur_label(minutes: i64) -> (r: String)
    ensures
        r@ == spec_dur_label(minutes as int),
{
    let mut s = String::new();
    let m = minutes as i128;
    let rem: i128 = m - 60 * crate::units::div_floor(m, 60);
    if rem == 0 {
        let q = crate::units::div_floor(m, 60);
        append_decimal(&mut s, q as i64);
        s.append("h");
    } else if minutes > 60 {
        append_decimal(&mut s, minutes / 60);
        s.append("h");
        append_decimal(&mut s, minutes % 60);
        s.append("m");
    } else {
        append_decimal(&mut s, minutes);
        s.append("m");
    }
    assert(s@ =~= spec_dur_label(minutes as int));
    s
}

} // verus!
