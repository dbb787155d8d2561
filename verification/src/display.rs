//! What the dashboard shows about jobs and prices: labels, the order of the
//! job cards, why a ready job is held back, each job's outlook, and the
//! layout of the price chart. The page itself is rendered around these.

use vstd::prelude::*;
use vstd::string::*;

use crate::cost::{interval_cost, spec_interval_cost};
use crate::job::{JobSpec, Priority};
use crate::form::CmdQuery;
use crate::learn::{
    command_signature, has_shell_operators, spec_command_signature, spec_has_shell_operators,
    spec_learned_estimate, DurationLearner, Estimate,
};
use crate::model::{Job, JobStatus};
use crate::price::{PricePoint, PriceSeries};
use crate::schedule::{plan, spec_plan, Plan};
use crate::text::{append_decimal, spec_decimal, spec_trim, trim};
use crate::time::{oslo_clock, oslo_wall_clock};
use crate::units::{valid_time, MAX_DURATION_MINUTES, MAX_TIME, SECS_PER_HOUR};

verus! {

// ---------------------------------------------------------------------------
// Labels
// ---------------------------------------------------------------------------

pub open spec fn status_class_name(s: JobStatus) -> Seq<char> {
    match s {
        JobStatus::Pending => "pending"@,
        JobStatus::Running => "running"@,
        JobStatus::Completed => "completed"@,
        JobStatus::Failed => "failed"@,
        JobStatus::Cancelled => "cancelled"@,
    }
}

/// The style class of a job card's status badge.
pub fn status_class(s: JobStatus) -> (r: &'static str)
    ensures
        r@ == status_class_name(s),
{
    match s {
        JobStatus::Pending => "pending",
        JobStatus::Running => "running",
        JobStatus::Completed => "completed",
        JobStatus::Failed => "failed",
        JobStatus::Cancelled => "cancelled",
    }
}

pub open spec fn priority_label_text(p: Priority) -> Seq<char> {
    match p {
        Priority::Low => "low"@,
        Priority::Normal => "normal"@,
        Priority::High => "high"@,
        Priority::Critical => "critical"@,
    }
}

/// The label of a priority badge.
pub fn priority_label(p: Priority) -> (r: &'static str)
    ensures
        r@ == priority_label_text(p),
{
    match p {
        Priority::Low => "low",
        Priority::Normal => "normal",
        Priority::High => "high",
        Priority::Critical => "critical",
    }
}

/// A duration in minutes as the dashboard writes it: whole hours as
/// `"N h"`, longer spans as `"N h M min"`, anything else as `"M min"`.
pub open spec fn spec_dur_label(minutes: int) -> Seq<char> {
    if minutes >= 60 && minutes % 60 == 0 {
        spec_decimal(minutes / 60) + " h"@
    } else if minutes > 60 {
        spec_decimal(minutes / 60) + " h "@ + spec_decimal(minutes % 60) + " min"@
    } else {
        spec_decimal(minutes) + " min"@
    }
}

pub fn dur_label(minutes: i64) -> (r: String)
    ensures
        r@ == spec_dur_label(minutes as int),
{
    let mut s = String::new();
    if minutes >= 60 && minutes % 60 == 0 {
        append_decimal(&mut s, minutes / 60);
        s.append(" h");
    } else if minutes > 60 {
        append_decimal(&mut s, minutes / 60);
        s.append(" h ");
        append_decimal(&mut s, minutes % 60);
        s.append(" min");
    } else {
        append_decimal(&mut s, minutes);
        s.append(" min");
    }
    assert(s@ =~= spec_dur_label(minutes as int));
    s
}

/// Elapsed seconds as the dashboard writes them: seconds under a minute,
/// then minutes (and seconds), then hours (and minutes).
pub open spec fn spec_elapsed_label(secs: int) -> Seq<char> {
    if secs < 60 {
        spec_decimal(secs) + "s"@
    } else if secs < 3600 {
        if secs % 60 == 0 {
            spec_decimal(secs / 60) + " min"@
        } else {
            spec_decimal(secs / 60) + " min "@ + spec_decimal(secs % 60) + "s"@
        }
    } else {
        if (secs % 3600) / 60 == 0 {
            spec_decimal(secs / 3600) + " h"@
        } else {
            spec_decimal(secs / 3600) + " h "@ + spec_decimal((secs % 3600) / 60) + " min"@
        }
    }
}

pub fn elapsed_label(secs: i64) -> (r: String)
    ensures
        r@ == spec_elapsed_label(secs as int),
{
    let mut s = String::new();
    if secs < 60 {
        append_decimal(&mut s, secs);
        s.append("s");
    } else if secs < 3600 {
        let m = secs / 60;
        let sec = secs % 60;
        append_decimal(&mut s, m);
        if sec == 0 {
            s.append(" min");
        } else {
            s.append(" min ");
            append_decimal(&mut s, sec);
            s.append("s");
        }
    } else {
        let h = secs / 3600;
        let m = (secs % 3600) / 60;
        append_decimal(&mut s, h);
        if m == 0 {
            s.append(" h");
        } else {
            s.append(" h ");
            append_decimal(&mut s, m);
            s.append(" min");
        }
    }
    assert(s@ =~= spec_elapsed_label(secs as int));
    s
}

/// Wall-clock seconds a finished job took, when both instants are known and
/// in order.
pub open spec fn spec_elapsed_secs(job: Job) -> Option<int> {
    match (job.started_at, job.finished_at) {
        (Some(s), Some(f)) => if f >= s { Some(f - s) } else { None },
        _ => None,
    }
}

pub fn elapsed_secs(job: &Job) -> (r: Option<i64>)
    requires
        job.started_at matches Some(s) ==> crate::units::valid_time(s as int),
        job.finished_at matches Some(f) ==> crate::units::valid_time(f as int),
    ensures
        r == (match spec_elapsed_secs(*job) { Some(d) => Some(d as i64), None => None::<i64> }),
{
    match (job.started_at, job.finished_at) {
        (Some(s), Some(f)) => if f >= s { Some(f - s) } else { None },
        _ => None,
    }
}

// ---------------------------------------------------------------------------
// Card order
// ---------------------------------------------------------------------------

/// Active work first: running jobs, then pending ones, then the rest.
pub open spec fn status_group(s: JobStatus) -> int {
    match s {
        JobStatus::Running => 0,
        JobStatus::Pending => 1,
        _ => 2,
    }
}

/// `order` lists positions of `jobs` by status group, keeping the given
/// order within each group.
pub open spec fn in_display_order(jobs: Seq<Job>, order: Seq<usize>) -> bool {
    &&& forall|i: int| 0 <= i < order.len() ==> (#[trigger] order[i]) < jobs.len()
    &&& forall|i: int, j: int| 0 <= i < j < order.len() ==> {
        let gi = status_group(jobs[order[i] as int].status);
        let gj = status_group(jobs[order[j] as int].status);
        gi < gj || (gi == gj && #[trigger] order[i] < #[trigger] order[j])
    }
}

fn group_of(s: JobStatus) -> (g: u8)
    ensures
        g as int == status_group(s),
{
    match s {
        JobStatus::Running => 0,
        JobStatus::Pending => 1,
        _ => 2,
    }
}

/// The order of the job cards: running, then pending, then finished or
/// cancelled ones, each group in the order given (newest first, as stored).
/// Returns each position of `jobs` once.
pub fn display_order(jobs: &Vec<Job>) -> (order: Vec<usize>)
    ensures
        order@.len() == jobs@.len(),
        in_display_order(jobs@, order@),
        forall|k: usize| (k as int) < jobs@.len() ==> #[trigger] order@.contains(k),
{
    let n = jobs.len();
    let mut order: Vec<usize> = Vec::new();
    let mut g: u8 = 0;
    proof {
        lemma_count_none(jobs@, n as int);
    }
    while g < 3
        invariant
            n == jobs@.len(),
            0 <= g <= 3,
            forall|i: int| 0 <= i < order@.len() ==> (#[trigger] order@[i]) < n,
            forall|i: int| 0 <= i < order@.len() ==> status_group(jobs@[(#[trigger] order@[i]) as int].status) < g,
            forall|i: int, j: int| 0 <= i < j < order@.len() ==> {
                let gi = status_group(jobs@[order@[i] as int].status);
                let gj = status_group(jobs@[order@[j] as int].status);
                gi < gj || (gi == gj && #[trigger] order@[i] < #[trigger] order@[j])
            },
            forall|k: usize| (k as int) < n && status_group(jobs@[k as int].status) < g ==> #[trigger] order@.contains(k),
            order@.len() == count_below(jobs@, g as int, n as int),
        decreases 3 - g,
    {
        let before = order.len();
        let mut k: usize = 0;
        while k < n
            invariant
                n == jobs@.len(),
                0 <= g < 3,
                0 <= k <= n,
                before <= order@.len(),
                forall|i: int| 0 <= i < order@.len() ==> (#[trigger] order@[i]) < n,
                forall|i: int| 0 <= i < before ==> status_group(jobs@[(#[trigger] order@[i]) as int].status) < g,
                forall|i: int| before <= i < order@.len() ==> status_group(jobs@[(#[trigger] order@[i]) as int].status) == g,
                forall|i: int| before <= i < order@.len() ==> (#[trigger] order@[i]) < k,
                forall|i: int, j: int| 0 <= i < j < order@.len() ==> {
                    let gi = status_group(jobs@[order@[i] as int].status);
                    let gj = status_group(jobs@[order@[j] as int].status);
                    gi < gj || (gi == gj && #[trigger] order@[i] < #[trigger] order@[j])
                },
                forall|x: usize| (x as int) < n && status_group(jobs@[x as int].status) < g ==> #[trigger] order@.contains(x),
                forall|x: usize| x < k && status_group(jobs@[x as int].status) == g ==> #[trigger] order@.contains(x),
                before == count_below(jobs@, g as int, n as int),
                order@.len() == before + count_in(jobs@, g as int, k as int),
            decreases n - k,
        {
            if group_of(jobs[k].status) == g {
                let ghost old_order = order@;
                order.push(k);
                proof {
                    assert forall|x: usize| (x as int) < n && status_group(jobs@[x as int].status) < g implies #[trigger] order@.contains(x) by {
                        assert(old_order.contains(x));
                        let a = choose|a: int| 0 <= a < old_order.len() && old_order[a] == x;
                        assert(order@[a] == x);
                    }
                    assert forall|x: usize| x < k + 1 && status_group(jobs@[x as int].status) == g implies #[trigger] order@.contains(x) by {
                        if x < k {
                            assert(old_order.contains(x));
                            let a = choose|a: int| 0 <= a < old_order.len() && old_order[a] == x;
                            assert(order@[a] == x);
                        } else {
                            assert(order@[old_order.len() as int] == x);
                        }
                    }
                }
            }
            k = k + 1;
        }
        proof {
            lemma_count_step(jobs@, g as int, n as int);
        }
        g = g + 1;
    }
    proof {
        assert forall|x: usize| (x as int) < n implies #[trigger] order@.contains(x) by {
            assert(status_group(jobs@[x as int].status) < 3);
        }
        lemma_count_all(jobs@, n as int);
    }
    order
}

/// How many of the first `k` jobs are in a group below `g`.
pub open spec fn count_below(jobs: Seq<Job>, g: int, k: int) -> int
    decreases k,
{
    if k <= 0 {
        0
    } else {
        count_below(jobs, g, k - 1) + if status_group(jobs[k - 1].status) < g { 1int } else { 0int }
    }
}

/// How many of the first `k` jobs are in group `g`.
pub open spec fn count_in(jobs: Seq<Job>, g: int, k: int) -> int
    decreases k,
{
    if k <= 0 {
        0
    } else {
        count_in(jobs, g, k - 1) + if status_group(jobs[k - 1].status) == g { 1int } else { 0int }
    }
}

proof fn lemma_count_step(jobs: Seq<Job>, g: int, k: int)
    ensures
        count_below(jobs, g + 1, k) == count_below(jobs, g, k) + count_in(jobs, g, k),
    decreases k,
{
    if k > 0 {
        lemma_count_step(jobs, g, k - 1);
    }
}

proof fn lemma_count_none(jobs: Seq<Job>, k: int)
    ensures
        count_below(jobs, 0, k) == 0,
    decreases k,
{
    if k > 0 {
        lemma_count_none(jobs, k - 1);
    }
}

proof fn lemma_count_all(jobs: Seq<Job>, k: int)
    requires
        k >= 0,
    ensures
        count_below(jobs, 3, k) == k,
    decreases k,
{
    if k > 0 {
        lemma_count_all(jobs, k - 1);
    }
}

// ---------------------------------------------------------------------------
// What holds a ready job back
// ---------------------------------------------------------------------------

/// How many jobs run, out of the first `k`.
pub open spec fn running_count(jobs: Seq<Job>, k: int) -> int
    decreases k,
{
    if k <= 0 {
        0
    } else {
        running_count(jobs, k - 1) + if jobs[k - 1].status == JobStatus::Running { 1int } else { 0int }
    }
}

/// The declared draw of the running jobs among the first `k`.
pub open spec fn running_watts(jobs: Seq<Job>, k: int) -> int
    decreases k,
{
    if k <= 0 {
        0
    } else {
        running_watts(jobs, k - 1) + if jobs[k - 1].status == JobStatus::Running {
            match jobs[k - 1].power_watts {
                Some(w) => w as int,
                None => 0int,
            }
        } else {
            0int
        }
    }
}

/// A declared draw, if any, within the handled range.
pub open spec fn power_ok(job: Job) -> bool {
    job.power_watts matches Some(w) ==> crate::units::valid_watts(w as int)
}

/// What is already running, to explain why a ready job hasn't launched.
#[derive(Debug, Clone, Copy, PartialEq, Eq, Structural)]
pub struct Load {
    pub running: usize,
    pub max_jobs: usize,
    /// Declared draw of the running jobs, watts.
    pub committed_watts: i128,
    /// The site power budget, watts.
    pub budget_watts: Option<i64>,
}

/// Why a ready job cannot be handed a slot right now.
#[derive(Debug, Clone, Copy, PartialEq, Eq, Structural)]
pub enum Blocked {
    /// Every slot is taken: `running` of `max_jobs` run.
    NoFreeSlot { running: usize, max_jobs: usize },
    /// Starting it would push the committed draw over the budget.
    NoPowerHeadroom { committed_watts: i128, budget_watts: i64 },
}

impl Load {
    /// The load of the running jobs among `jobs`, under the given cap and
    /// budget.
    pub fn from_jobs(jobs: &Vec<Job>, max_jobs: usize, budget_watts: Option<i64>) -> (l: Load)
        requires
            jobs@.len() <= usize::MAX,
            forall|k: int| 0 <= k < jobs@.len() ==> power_ok(#[trigger] jobs@[k]),
        ensures
            l.running == running_count(jobs@, jobs@.len() as int),
            l.committed_watts == running_watts(jobs@, jobs@.len() as int),
            l.max_jobs == max_jobs,
            l.budget_watts == budget_watts,
    {
        let n = jobs.len();
        let mut running: usize = 0;
        let mut watts: i128 = 0;
        let mut i: usize = 0;
        while i < n
            invariant
                n == jobs@.len(),
                forall|k: int| 0 <= k < jobs@.len() ==> power_ok(#[trigger] jobs@[k]),
                0 <= i <= n,
                running as int == running_count(jobs@, i as int),
                running <= i,
                watts as int == running_watts(jobs@, i as int),
                -(i as int) * crate::units::MAX_WATTS <= watts <= (i as int) * crate::units::MAX_WATTS,
            decreases n - i,
        {
            if jobs[i].status == JobStatus::Running {
                running = running + 1;
                match jobs[i].power_watts {
                    Some(w) => {
                        assert(power_ok(jobs@[i as int]));
                        watts = watts + w as i128;
                    },
                    None => {},
                }
            }
            i = i + 1;
        }
        Load { running, max_jobs, committed_watts: watts, budget_watts }
    }

    /// Why `job` can't be handed a slot right now, if anything blocks it:
    /// no free slot, or (with a budget) its draw — unknown or negative
    /// counting as zero — would take the committed draw over the budget.
    pub open spec fn blocked_reason_spec(&self, job: Job) -> Option<Blocked> {
        if self.running >= self.max_jobs {
            Some(Blocked::NoFreeSlot { running: self.running, max_jobs: self.max_jobs })
        } else {
            match self.budget_watts {
                Some(b) => {
                    let draw = match job.power_watts {
                        Some(w) => if w > 0 { w as int } else { 0int },
                        None => 0int,
                    };
                    if self.committed_watts + draw > b {
                        Some(Blocked::NoPowerHeadroom { committed_watts: self.committed_watts, budget_watts: b })
                    } else {
                        None
                    }
                },
                None => None,
            }
        }
    }

    pub fn blocked_reason(&self, job: &Job) -> (r: Option<Blocked>)
        requires
            power_ok(*job),
            -crate::units::MAX_WATTS * 0x1_0000_0000_0000_0000 <= self.committed_watts
                <= crate::units::MAX_WATTS * 0x1_0000_0000_0000_0000,
        ensures
            r == self.blocked_reason_spec(*job),
    {
        if self.running >= self.max_jobs {
            return Some(Blocked::NoFreeSlot { running: self.running, max_jobs: self.max_jobs });
        }
        match self.budget_watts {
            Some(b) => {
                let draw: i128 = match job.power_watts {
                    Some(w) => if w > 0 { w as i128 } else { 0 },
                    None => 0,
                };
                if self.committed_watts + draw > b as i128 {
                    Some(Blocked::NoPowerHeadroom { committed_watts: self.committed_watts, budget_watts: b })
                } else {
                    None
                }
            },
            None => None,
        }
    }
}

// ---------------------------------------------------------------------------
// A job card's outlook
// ---------------------------------------------------------------------------

/// `t` moved on by `d` seconds, when both it and the result are handled
/// instants.
pub open spec fn later_by(t: Option<i64>, d: int) -> Option<i64> {
    match t {
        Some(x) => if valid_time(x + d) { Some((x + d) as i64) } else { None },
        None => None,
    }
}

/// The minutes a job is planned with: the learned runtime when there is
/// one, otherwise the user's estimate.
pub open spec fn outlook_minutes(job: Job, learned: Option<Estimate>) -> i64 {
    match learned {
        Some(e) => e.minutes,
        None => job.duration_minutes,
    }
}

pub open spec fn outlook_spec(job: Job, learned: Option<Estimate>) -> JobSpec {
    JobSpec {
        policy: job.policy,
        duration_minutes: outlook_minutes(job, learned),
        deadline: job.deadline,
        earliest_start: job.earliest_start,
    }
}

pub open spec fn outlook_secs(job: Job, learned: Option<Estimate>) -> int {
    let m = outlook_minutes(job, learned);
    if m < 0 { 0 } else { m * 60 }
}

/// The plan shown for a job: only pending jobs are planned.
pub open spec fn outlook_decision(job: Job, learned: Option<Estimate>, s: Seq<PricePoint>, now: int) -> Option<Plan> {
    if job.status == JobStatus::Pending {
        Some(spec_plan(outlook_spec(job, learned), s, now))
    } else {
        None
    }
}

/// When the job should be done: a running job its start plus the planned
/// duration, a pending one its planned start plus the duration.
pub open spec fn outlook_finish(job: Job, learned: Option<Estimate>, s: Seq<PricePoint>, now: int) -> Option<i64> {
    let d = outlook_secs(job, learned);
    match job.status {
        JobStatus::Running => later_by(job.started_at, d),
        JobStatus::Pending => later_by(outlook_decision(job, learned, s, now)->0.start_at, d),
        _ => None,
    }
}

/// What a planned run costs and what it saves against starting now, µNOK:
/// `(cost now − cost planned, cost planned)`, when the job is pending, has
/// a declared draw and a planned start, and prices cover both runs.
pub open spec fn outlook_projection(job: Job, learned: Option<Estimate>, s: Seq<PricePoint>, now: int) -> Option<(int, int)> {
    let d = outlook_secs(job, learned);
    match outlook_decision(job, learned, s, now) {
        Some(plan) => match (job.power_watts, plan.start_at) {
            (Some(w), Some(st)) => if valid_time(st as int) && valid_time(st + d) && valid_time(now + d) {
                match (
                    spec_interval_cost(s, st as int, st + d, w as int),
                    spec_interval_cost(s, now, now + d, w as int),
                ) {
                    (Some(window), Some(now_cost)) => Some((now_cost - window, window)),
                    _ => None,
                }
            } else {
                None
            },
            _ => None,
        },
        None => None,
    }
}

/// What a job card shows beyond the stored record.
#[derive(Debug, Clone, Copy)]
pub struct JobOutlook {
    /// Minutes the job is planned with.
    pub effective_minutes: i64,
    /// The planner's decision (pending jobs only).
    pub decision: Option<Plan>,
    /// When the job should be done.
    pub finish: Option<i64>,
    /// `(saving against starting now, cost of the planned run)`, µNOK.
    pub projected: Option<(i128, i128)>,
    /// What holds a job back that the planner says should run now.
    pub queued: Option<Blocked>,
}

fn later(t: Option<i64>, d: i64) -> (r: Option<i64>)
    ensures
        r == later_by(t, d as int),
{
    match t {
        Some(x) => {
            let y: i128 = x as i128 + d as i128;
            if -(MAX_TIME as i128) <= y && y <= MAX_TIME as i128 { Some(y as i64) } else { None }
        },
        None => None,
    }
}

/// Work out a job card's outlook: its plan (if pending) with the learned
/// runtime when known, when it should be done, what the planned run costs
/// and saves, and what holds it back when it should run now.
pub fn job_outlook(job: &Job, learned: Option<Estimate>, prices: &PriceSeries, load: &Load, now: i64) -> (o: JobOutlook)
    requires
        prices.wf(),
        valid_time(now as int),
        crate::scheduler::job_ok(*job),
        job.started_at matches Some(t) ==> valid_time(t as int),
        learned matches Some(e) ==> e.minutes <= MAX_DURATION_MINUTES,
        -crate::units::MAX_WATTS * 0x1_0000_0000_0000_0000 <= load.committed_watts
            <= crate::units::MAX_WATTS * 0x1_0000_0000_0000_0000,
    ensures
        o.effective_minutes == outlook_minutes(*job, learned),
        o.decision == outlook_decision(*job, learned, prices.points@, now as int),
        o.finish == outlook_finish(*job, learned, prices.points@, now as int),
        o.projected == (match outlook_projection(*job, learned, prices.points@, now as int) {
            Some((a, b)) => Some((a as i128, b as i128)),
            None => None::<(i128, i128)>,
        }),
        o.queued == (match o.decision {
            Some(d) => if d.run_now {
                load.blocked_reason_spec(*job)
            } else {
                None
            },
            None => None,
        }),
{
    let minutes = match learned {
        Some(e) => e.minutes,
        None => job.duration_minutes,
    };
    let secs: i64 = if minutes < 0 { 0 } else { minutes * 60 };
    let decision = if job.status == JobStatus::Pending {
        let spec = JobSpec {
            policy: job.policy,
            duration_minutes: minutes,
            deadline: job.deadline,
            earliest_start: job.earliest_start,
        };
        Some(plan(&spec, prices, now))
    } else {
        None
    };
    let finish = match job.status {
        JobStatus::Running => later(job.started_at, secs),
        JobStatus::Pending => later(decision.unwrap().start_at, secs),
        _ => None,
    };
    let projected = match decision {
        Some(d) => match (job.power_watts, d.start_at) {
            (Some(w), Some(st)) => {
                let st_end: i128 = st as i128 + secs as i128;
                if -MAX_TIME <= st && st <= MAX_TIME && st_end <= MAX_TIME as i128 && now + secs <= MAX_TIME {
                    match (interval_cost(prices, st, st + secs, w), interval_cost(prices, now, now + secs, w)) {
                        (Some(window), Some(now_cost)) => Some((now_cost - window, window)),
                        _ => None,
                    }
                } else {
                    None
                }
            },
            _ => None,
        },
        None => None,
    };
    let queued = match decision {
        Some(d) => if d.run_now { load.blocked_reason(job) } else { None },
        None => None,
    };
    JobOutlook { effective_minutes: minutes, decision, finish, projected, queued }
}

// ---------------------------------------------------------------------------
// The price chart
// ---------------------------------------------------------------------------

/// The label under an hour bar.
#[derive(Debug, Clone, Copy, PartialEq, Eq, Structural)]
pub enum BarLabel {
    /// The hour containing the current instant.
    Now,
    /// Every third Oslo hour, from two hours ahead on.
    Hour(u32),
    Blank,
}

/// One column of the price chart.
#[derive(Debug, Clone, Copy, PartialEq, Eq, Structural)]
pub enum ChartColumn {
    /// The rule where the Oslo date changes, with the new day's weekday
    /// (0 = Monday … 6 = Sunday).
    DayBreak { weekday: u32 },
    /// The bar of the price point at `point`.
    Bar { point: usize, is_now: bool, label: BarLabel },
}

/// The label of the bar of point `p`, whose Oslo clock reads `clock`.
pub open spec fn bar_label(p: PricePoint, clock: (i32, u32, u32), now: int) -> BarLabel {
    if p.spec_contains(now) {
        BarLabel::Now
    } else if clock.1 % 3 == 0 && p.start - now >= 2 * SECS_PER_HOUR {
        BarLabel::Hour(clock.1)
    } else {
        BarLabel::Blank
    }
}

/// The columns for the first `i` points of `s`, given each point's Oslo
/// clock (local date, hour, weekday) at its start, and the date of the last
/// bar: every point not yet over gets a bar, preceded by a day break when its
/// date differs from the previous bar's.
pub open spec fn chart_with(s: Seq<PricePoint>, clocks: Seq<(i32, u32, u32)>, now: int, i: int) -> (Seq<ChartColumn>, Option<i32>)
    decreases i,
{
    if i <= 0 {
        (Seq::empty(), None)
    } else {
        let (cols, prev) = chart_with(s, clocks, now, i - 1);
        let p = s[i - 1];
        if p.end <= now {
            (cols, prev)
        } else {
            let (day, _, weekday) = clocks[i - 1];
            let with_break = match prev {
                Some(d) => if d != day { cols.push(ChartColumn::DayBreak { weekday }) } else { cols },
                None => cols,
            };
            (
                with_break.push(ChartColumn::Bar {
                    point: (i - 1) as usize,
                    is_now: p.spec_contains(now),
                    label: bar_label(p, clocks[i - 1], now),
                }),
                Some(day),
            )
        }
    }
}

/// The Oslo clock of each point's start.
pub open spec fn start_clocks(s: Seq<PricePoint>) -> Seq<(i32, u32, u32)> {
    s.map_values(|p: PricePoint| oslo_clock(p.start))
}

/// Lay out the chart from each point's Oslo clock (`clocks[i]` for point
/// `i`): the current hour onward, a rule where the date flips, and hour
/// labels every third hour from two hours ahead.
pub fn layout_columns(prices: &PriceSeries, clocks: &Vec<(i32, u32, u32)>, now: i64) -> (cols: Vec<ChartColumn>)
    requires
        clocks@.len() == prices.points@.len(),
    ensures
        cols@ == chart_with(prices.points@, clocks@, now as int, prices.points@.len() as int).0,
{
    let n = prices.points.len();
    let mut cols: Vec<ChartColumn> = Vec::new();
    let mut prev: Option<i32> = None;
    let mut i: usize = 0;
    while i < n
        invariant
            n == prices.points@.len(),
            clocks@.len() == n,
            0 <= i <= n,
            (cols@, prev) == chart_with(prices.points@, clocks@, now as int, i as int),
        decreases n - i,
    {
        let p = prices.points[i];
        if p.end > now {
            let (day, hour, weekday) = clocks[i];
            match prev {
                Some(d) => {
                    if d != day {
                        cols.push(ChartColumn::DayBreak { weekday });
                    }
                },
                None => {},
            }
            let is_now = p.contains(now);
            let label = if is_now {
                BarLabel::Now
            } else if hour % 3 == 0 && p.start as i128 - now as i128 >= 2 * SECS_PER_HOUR as i128 {
                BarLabel::Hour(hour)
            } else {
                BarLabel::Blank
            };
            cols.push(ChartColumn::Bar { point: i, is_now, label });
            prev = Some(day);
        }
        i = i + 1;
    }
    cols
}

/// The columns of the price chart, with the Oslo clock read for each point.
pub fn chart_columns(prices: &PriceSeries, now: i64) -> (cols: Vec<ChartColumn>)
    requires
        prices.wf(),
    ensures
        cols@ == chart_with(prices.points@, start_clocks(prices.points@), now as int, prices.points@.len() as int).0,
{
    let n = prices.points.len();
    let mut clocks: Vec<(i32, u32, u32)> = Vec::new();
    let mut i: usize = 0;
    while i < n
        invariant
            n == prices.points@.len(),
            prices.wf(),
            0 <= i <= n,
            clocks@ == start_clocks(prices.points@.subrange(0, i as int)),
        decreases n - i,
    {
        let p = prices.points[i];
        assert(p.valid()) by {
            assert(crate::price::all_valid(prices.points@));
        }
        let c = oslo_wall_clock(p.start);
        clocks.push(c);
        proof {
            assert(prices.points@.subrange(0, i + 1) =~= prices.points@.subrange(0, i as int).push(p));
            assert(clocks@ =~= start_clocks(prices.points@.subrange(0, i + 1)));
        }
        i = i + 1;
    }
    proof {
        assert(prices.points@.subrange(0, n as int) =~= prices.points@);
    }
    layout_columns(prices, &clocks, now)
}

pub open spec fn weekday_abbrev_text(weekday: u32) -> Seq<char> {
    if weekday == 0 {
        "mon"@
    } else if weekday == 1 {
        "tue"@
    } else if weekday == 2 {
        "wed"@
    } else if weekday == 3 {
        "thu"@
    } else if weekday == 4 {
        "fri"@
    } else if weekday == 5 {
        "sat"@
    } else {
        "sun"@
    }
}

/// The lower-case abbreviated English name of a weekday (0 = Monday).
pub fn weekday_abbrev(weekday: u32) -> (r: &'static str)
    ensures
        r@ == weekday_abbrev_text(weekday),
{
    if weekday == 0 {
        "mon"
    } else if weekday == 1 {
        "tue"
    } else if weekday == 2 {
        "wed"
    } else if weekday == 3 {
        "thu"
    } else if weekday == 4 {
        "fri"
    } else if weekday == 5 {
        "sat"
    } else {
        "sun"
    }
}

// ---------------------------------------------------------------------------
// The add-job form's command hint
// ---------------------------------------------------------------------------

/// What the form says about a command as it is typed.
#[derive(Debug, Clone)]
pub struct CommandHint {
    /// The command holds shell control operators: it runs as one job and its
    /// runtime is learned only from exact repeats.
    pub compound: bool,
    /// The runtime learned for it, when there is enough history.
    pub estimate: Option<Estimate>,
    /// The signature of similar commands, when the estimate comes from them.
    pub signature: Option<String>,
}

/// The hint for the typed command (trimmed): nothing for a blank one;
/// otherwise whether it is compound and, when a learner is at hand, its
/// learned runtime and, for an estimate from similar commands, their
/// signature.
pub fn command_hint(query: &CmdQuery, learner: Option<&DurationLearner>) -> (h: Option<CommandHint>)
    ensures
        ({
            let command = match query.command {
                Some(c) => spec_trim(c@),
                None => Seq::<char>::empty(),
            };
            match h {
                None => command.len() == 0,
                Some(hint) => {
                    &&& command.len() > 0
                    &&& hint.compound == spec_has_shell_operators(command)
                    &&& hint.estimate == (match learner {
                        Some(l) => spec_learned_estimate(l.history(), command),
                        None => None,
                    })
                    &&& match hint.estimate {
                        Some(e) => if e.exact {
                            hint.signature is None
                        } else {
                            hint.signature matches Some(sig) && sig@ == spec_command_signature(command)
                        },
                        None => hint.signature is None,
                    }
                },
            }
        }),
{
    let command = match &query.command {
        Some(c) => trim(c.as_str()),
        None => String::new(),
    };
    if command.as_str().unicode_len() == 0 {
        return None;
    }
    let estimate = match learner {
        Some(l) => l.estimate(command.as_str()),
        None => None,
    };
    let compound = has_shell_operators(command.as_str());
    let signature = match estimate {
        Some(e) => if e.exact { None } else { Some(command_signature(command.as_str())) },
        None => None,
    };
    Some(CommandHint { compound, estimate, signature })
}

} // verus!
