//! One scheduler tick's decisions. Each tick is stateless: every pending job
//! is planned against the latest prices (with its learned runtime when there
//! is enough history), its projected start is reported for display, and the
//! jobs that should run now are ordered and launched within the free slots
//! and the site power budget.

use vstd::prelude::*;

use crate::job::{JobSpec, Priority};
use crate::learn::{spec_learned_estimate, DurationLearner, Estimate};
use crate::model::Job;
use crate::price::PriceSeries;
use crate::schedule::{plan, spec_plan};
use crate::select::{fits, select_within_budget, selection};
use crate::units::{valid_time, valid_watts, MAX_DURATION_MINUTES, MAX_WATTS};

verus! {

// ---------------------------------------------------------------------------
// Launch order
// ---------------------------------------------------------------------------

/// Deadline `a` comes before deadline `b`: both set and `a` earlier, or only
/// `a` set (jobs without a deadline go last).
pub open spec fn deadline_before(a: Option<i64>, b: Option<i64>) -> bool {
    match (a, b) {
        (Some(x), Some(y)) => x < y,
        (Some(_), None) => true,
        _ => false,
    }
}

/// The job keyed `(pa, da)` at position `ia` launches before the one keyed
/// `(pb, db)` at position `ib`: higher priority first, then earlier deadline,
/// then the order they came in.
pub open spec fn launches_before(pa: Priority, da: Option<i64>, ia: int, pb: Priority, db: Option<i64>, ib: int) -> bool {
    ||| pa.spec_rank() > pb.spec_rank()
    ||| (pa.spec_rank() == pb.spec_rank() && deadline_before(da, db))
    ||| (pa.spec_rank() == pb.spec_rank() && da == db && ia < ib)
}

pub open spec fn key_before(keys: Seq<(Priority, Option<i64>)>, a: int, b: int) -> bool {
    launches_before(keys[a].0, keys[a].1, a, keys[b].0, keys[b].1, b)
}

/// `order` lists positions of `keys`, each launching before the next.
pub open spec fn in_launch_order(keys: Seq<(Priority, Option<i64>)>, order: Seq<usize>) -> bool {
    &&& forall|i: int| 0 <= i < order.len() ==> (#[trigger] order[i]) < keys.len()
    &&& forall|i: int, j: int| 0 <= i < j < order.len() ==> key_before(keys, #[trigger] order[i] as int, #[trigger] order[j] as int)
}

proof fn lemma_key_order(keys: Seq<(Priority, Option<i64>)>, a: int, b: int, c: int)
    ensures
        a != b ==> key_before(keys, a, b) || key_before(keys, b, a),
        !key_before(keys, a, a),
        key_before(keys, a, b) && key_before(keys, b, c) ==> key_before(keys, a, c),
{
}

fn deadline_is_before(a: Option<i64>, b: Option<i64>) -> (r: bool)
    ensures
        r == deadline_before(a, b),
{
    match (a, b) {
        (Some(x), Some(y)) => x < y,
        (Some(_), None) => true,
        _ => false,
    }
}

fn goes_before(keys: &Vec<(Priority, Option<i64>)>, a: usize, b: usize) -> (r: bool)
    requires
        a < keys@.len(),
        b < keys@.len(),
    ensures
        r == key_before(keys@, a as int, b as int),
{
    let (pa, da) = keys[a];
    let (pb, db) = keys[b];
    let ra = pa.rank();
    let rb = pb.rank();
    if ra != rb {
        return ra > rb;
    }
    if deadline_is_before(da, db) {
        return true;
    }
    let same = match (da, db) {
        (Some(x), Some(y)) => x == y,
        (None, None) => true,
        _ => false,
    };
    same && a < b
}

/// The order in which ready jobs are launched when slots or power are
/// scarce: highest priority first, then earliest deadline (jobs without one
/// last), ties kept in the order given. Returns each position of `keys`
/// once.
pub fn launch_order(keys: &Vec<(Priority, Option<i64>)>) -> (order: Vec<usize>)
    ensures
        order@.len() == keys@.len(),
        in_launch_order(keys@, order@),
        forall|k: usize| (k as int) < keys@.len() ==> #[trigger] order@.contains(k),
{
    let n = keys.len();
    let mut order: Vec<usize> = Vec::new();
    let mut i: usize = 0;
    while i < n
        invariant
            n == keys@.len(),
            0 <= i <= n,
            order@.len() == i,
            forall|k: int| 0 <= k < order@.len() ==> (#[trigger] order@[k]) < i,
            forall|x: int, y: int| 0 <= x < y < order@.len() ==> key_before(keys@, #[trigger] order@[x] as int, #[trigger] order@[y] as int),
            forall|k: usize| k < i ==> #[trigger] order@.contains(k),
        decreases n - i,
    {
        // The first position whose job `i` goes before.
        let mut pos: usize = 0;
        while pos < order.len() && !goes_before(keys, i, order[pos])
            invariant
                n == keys@.len(),
                i < n,
                0 <= pos <= order@.len(),
                forall|k: int| 0 <= k < order@.len() ==> (#[trigger] order@[k]) < i,
                forall|k: int| 0 <= k < pos ==> !key_before(keys@, i as int, #[trigger] order@[k] as int),
            decreases order@.len() - pos,
        {
            pos = pos + 1;
        }
        let ghost old_order = order@;
        order.insert(pos, i);
        proof {
            assert(order@ == old_order.insert(pos as int, i));
            assert forall|x: int, y: int| 0 <= x < y < order@.len() implies key_before(keys@, #[trigger] order@[x] as int, #[trigger] order@[y] as int) by {
                let p = pos as int;
                if y < p {
                    assert(order@[x] == old_order[x] && order@[y] == old_order[y]);
                } else if y == p {
                    assert(order@[x] == old_order[x]);
                    assert(old_order[x] < i);
                    lemma_key_order(keys@, i as int, old_order[x] as int, 0);
                } else if x == p {
                    assert(order@[y] == old_order[y - 1]);
                    if y - 1 > p {
                        assert(key_before(keys@, old_order[p] as int, old_order[y - 1] as int));
                        lemma_key_order(keys@, i as int, old_order[p] as int, old_order[y - 1] as int);
                    }
                } else if x < p {
                    assert(order@[x] == old_order[x] && order@[y] == old_order[y - 1]);
                } else {
                    assert(order@[x] == old_order[x - 1] && order@[y] == old_order[y - 1]);
                }
            }
            assert forall|k: usize| k < i + 1 implies #[trigger] order@.contains(k) by {
                if k < i {
                    assert(old_order.contains(k));
                    let a = choose|a: int| 0 <= a < old_order.len() && old_order[a] == k;
                    if a < pos {
                        assert(order@[a] == k);
                    } else {
                        assert(order@[a + 1] == k);
                    }
                } else {
                    assert(order@[pos as int] == i);
                }
            }
        }
        i = i + 1;
    }
    order
}

// ---------------------------------------------------------------------------
// The tick
// ---------------------------------------------------------------------------

/// A stored job the planner can take: instants in range, a duration that
/// converts to a time span, and a draw within range.
pub open spec fn job_ok(job: Job) -> bool {
    &&& job.duration_minutes <= MAX_DURATION_MINUTES
    &&& (job.deadline matches Some(d) ==> valid_time(d as int))
    &&& (job.earliest_start matches Some(e) ==> valid_time(e as int))
    &&& (job.power_watts matches Some(w) ==> valid_watts(w as int))
}

/// Whether a stored job is one the planner can take.
pub fn job_in_range(job: &Job) -> (b: bool)
    ensures
        b == job_ok(*job),
{
    let duration_ok = job.duration_minutes <= MAX_DURATION_MINUTES;
    let deadline_ok = match job.deadline {
        Some(d) => crate::units::is_valid_time(d),
        None => true,
    };
    let earliest_ok = match job.earliest_start {
        Some(e) => crate::units::is_valid_time(e),
        None => true,
    };
    let power_ok = match job.power_watts {
        Some(w) => -crate::units::MAX_WATTS <= w && w <= crate::units::MAX_WATTS,
        None => true,
    };
    duration_ok && deadline_ok && earliest_ok && power_ok
}

/// What a pending job is planned as: its learned runtime when there is
/// enough history, otherwise the user's estimate.
pub open spec fn planned_spec(job: Job, learned: Option<Estimate>) -> JobSpec {
    JobSpec {
        policy: job.policy,
        duration_minutes: match learned {
            Some(e) => e.minutes,
            None => job.duration_minutes,
        },
        deadline: job.deadline,
        earliest_start: job.earliest_start,
    }
}

/// The plan for pending job `k` this tick.
pub open spec fn tick_plan_of(pending: Seq<Job>, k: int, history: Seq<(Seq<char>, i64)>, prices: PriceSeries, now: int) -> crate::schedule::Plan {
    spec_plan(planned_spec(pending[k], spec_learned_estimate(history, pending[k].command@)), prices.points@, now)
}

/// A job's declared draw, unknown counting as zero.
pub open spec fn draw(job: Job) -> i64 {
    match job.power_watts {
        Some(w) => w,
        None => 0,
    }
}

/// Slots free for new launches: the cap less what is running, never negative.
pub open spec fn spec_free_slots(max_jobs: int, running: int) -> int {
    if max_jobs - running > 0 { max_jobs - running } else { 0 }
}

/// What one tick decides.
#[derive(Debug, Clone)]
pub struct TickDecision {
    /// The projected start of each pending job, in the order given, to be
    /// stored for display.
    pub scheduled: Vec<Option<i64>>,
    /// The pending jobs (positions) that should run now, in launch order.
    pub ready: Vec<usize>,
    /// The pending jobs (positions) to launch this tick, in launch order,
    /// when every claim is won (see `Launcher` for lost claims).
    pub launch: Vec<usize>,
}

/// Free launch slots under the concurrency cap, given how many jobs run.
pub fn free_slots(max_jobs: usize, running: i64) -> (f: usize)
    requires
        running >= 0,
    ensures
        f as int == spec_free_slots(max_jobs as int, running as int),
{
    let free: i128 = max_jobs as i128 - running as i128;
    if free > 0 {
        free as usize
    } else {
        0
    }
}

/// Decide one scheduler tick: plan every pending job (with its learned
/// runtime when available), order those that should run now, and choose
/// which of them to launch given the running jobs' count and draw, the
/// concurrency cap and the optional site power budget.
pub fn decide_tick(
    pending: &Vec<Job>,
    learner: &DurationLearner,
    prices: &PriceSeries,
    now: i64,
    running: i64,
    max_jobs: usize,
    committed_watts: i64,
    budget_watts: Option<i64>,
) -> (d: TickDecision)
    requires
        prices.wf(),
        valid_time(now as int),
        running >= 0,
        forall|k: int| 0 <= k < pending@.len() ==> job_ok(#[trigger] pending@[k]),
    ensures
        d.scheduled@.len() == pending@.len(),
        forall|k: int| 0 <= k < pending@.len() ==> (#[trigger] d.scheduled@[k])
            == tick_plan_of(pending@, k, learner.history(), *prices, now as int).start_at,
        forall|k: int| 0 <= k < pending@.len() && tick_plan_of(pending@, k, learner.history(), *prices, now as int).run_now
            ==> d.ready@.contains(k as usize),
        forall|i: int| 0 <= i < d.ready@.len() ==> tick_plan_of(pending@, (#[trigger] d.ready@[i]) as int, learner.history(), *prices, now as int).run_now,
        in_launch_order(pending@.map_values(|j: Job| (j.priority, j.deadline)), d.ready@),
        ({
            let sel = selection(
                d.ready@.map_values(|k: usize| draw(pending@[k as int])),
                spec_free_slots(max_jobs as int, running as int),
                committed_watts as int,
                budget_watts,
                d.ready@.len() as int,
            ).0;
            &&& d.launch@.len() == sel.len()
            &&& d.launch@.len() <= spec_free_slots(max_jobs as int, running as int)
            &&& forall|i: int| 0 <= i < d.launch@.len() ==> d.ready@.contains(#[trigger] d.launch@[i])
            &&& forall|i: int| 0 <= i < sel.len() ==> d.launch@[i] == d.ready@[#[trigger] sel[i]]
        }),
{
    let n = pending.len();
    let ghost history = learner.history();
    let mut scheduled: Vec<Option<i64>> = Vec::new();
    let mut due: Vec<usize> = Vec::new();
    let mut i: usize = 0;
    while i < n
        invariant
            n == pending@.len(),
            prices.wf(),
            valid_time(now as int),
            history == learner.history(),
            forall|k: int| 0 <= k < pending@.len() ==> job_ok(#[trigger] pending@[k]),
            0 <= i <= n,
            scheduled@.len() == i,
            forall|k: int| 0 <= k < i ==> (#[trigger] scheduled@[k]) == tick_plan_of(pending@, k, history, *prices, now as int).start_at,
            forall|a: int| 0 <= a < due@.len() ==> (#[trigger] due@[a]) < i,
            forall|a: int, b: int| 0 <= a < b < due@.len() ==> (#[trigger] due@[a]) < (#[trigger] due@[b]),
            forall|a: int| 0 <= a < due@.len() ==> tick_plan_of(pending@, (#[trigger] due@[a]) as int, history, *prices, now as int).run_now,
            forall|k: int| 0 <= k < i && tick_plan_of(pending@, k, history, *prices, now as int).run_now ==> due@.contains(k as usize),
        decreases n - i,
    {
        let job = &pending[i];
        assert(job_ok(*job));
        let learned = learner.estimate(job.command.as_str());
        let minutes = match learned {
            Some(e) => e.minutes,
            None => job.duration_minutes,
        };
        let spec = JobSpec {
            policy: job.policy,
            duration_minutes: minutes,
            deadline: job.deadline,
            earliest_start: job.earliest_start,
        };
        assert(spec == planned_spec(pending@[i as int], spec_learned_estimate(history, pending@[i as int].command@)));
        let decision = plan(&spec, prices, now);
        scheduled.push(decision.start_at);
        if decision.run_now {
            let ghost before = due@;
            due.push(i);
            proof {
                assert forall|k: int| 0 <= k < i + 1 && tick_plan_of(pending@, k, history, *prices, now as int).run_now implies due@.contains(k as usize) by {
                    if k < i {
                        let a = choose|a: int| 0 <= a < before.len() && before[a] == k as usize;
                        assert(due@[a] == k as usize);
                    } else {
                        assert(due@[before.len() as int] == i);
                    }
                }
            }
        }
        i = i + 1;
    }
    // Order the due jobs for launch.
    let m = due.len();
    let mut keys: Vec<(Priority, Option<i64>)> = Vec::new();
    let mut j: usize = 0;
    while j < m
        invariant
            m == due@.len(),
            n == pending@.len(),
            forall|a: int| 0 <= a < due@.len() ==> (#[trigger] due@[a]) < n,
            0 <= j <= m,
            keys@.len() == j,
            forall|a: int| 0 <= a < j ==> (#[trigger] keys@[a]) == (pending@[due@[a] as int].priority, pending@[due@[a] as int].deadline),
        decreases m - j,
    {
        let k = due[j];
        keys.push((pending[k].priority, pending[k].deadline));
        j = j + 1;
    }
    let order = launch_order(&keys);
    let mut ready: Vec<usize> = Vec::new();
    let mut draws: Vec<i64> = Vec::new();
    let mut j: usize = 0;
    while j < m
        invariant
            m == due@.len(),
            m == order@.len(),
            n == pending@.len(),
            forall|k: int| 0 <= k < pending@.len() ==> job_ok(#[trigger] pending@[k]),
            forall|a: int| 0 <= a < order@.len() ==> (#[trigger] order@[a]) < m,
            forall|a: int| 0 <= a < due@.len() ==> (#[trigger] due@[a]) < n,
            0 <= j <= m,
            ready@.len() == j,
            draws@.len() == j,
            forall|a: int| 0 <= a < j ==> (#[trigger] ready@[a]) == due@[order@[a] as int],
            forall|a: int| 0 <= a < j ==> (#[trigger] draws@[a]) == draw(pending@[ready@[a] as int]),
            forall|a: int| 0 <= a < j ==> valid_watts(#[trigger] draws@[a] as int),
        decreases m - j,
    {
        let k = due[order[j]];
        assert(job_ok(pending@[k as int]));
        let w: i64 = match pending[k].power_watts {
            Some(w) => w,
            None => 0,
        };
        ready.push(k);
        draws.push(w);
        j = j + 1;
    }
    let free = free_slots(max_jobs, running);
    let picked = select_within_budget(draws.as_slice(), free, committed_watts, budget_watts);
    let ghost sel = selection(draws@, free as int, committed_watts as int, budget_watts, draws@.len() as int).0;
    proof {
        crate::select::selection_shape(draws@, free as int, committed_watts as int, budget_watts, draws@.len() as int);
        assert(picked@.len() == sel.len());
        assert forall|a: int| 0 <= a < sel.len() implies picked@[a] as int == #[trigger] sel[a] by {
            assert(picked@.map_values(|x: usize| x as int)[a] == sel[a]);
        }
    }
    let mut launch: Vec<usize> = Vec::new();
    let mut j: usize = 0;
    while j < picked.len()
        invariant
            picked@.len() == sel.len(),
            forall|a: int| 0 <= a < sel.len() ==> picked@[a] as int == #[trigger] sel[a],
            forall|a: int| 0 <= a < sel.len() ==> 0 <= #[trigger] sel[a] < ready@.len(),
            0 <= j <= picked@.len(),
            launch@.len() == j,
            forall|a: int| 0 <= a < j ==> launch@[a] == ready@[#[trigger] sel[a]],
            forall|a: int| 0 <= a < j ==> ready@.contains(#[trigger] launch@[a]),
        decreases picked@.len() - j,
    {
        assert(0 <= sel[j as int] < ready@.len());
        launch.push(ready[picked[j]]);
        proof {
            assert(ready@[sel[j as int]] == launch@[j as int]);
        }
        j = j + 1;
    }
    proof {
        let all_keys = pending@.map_values(|jb: Job| (jb.priority, jb.deadline));
        // The due positions ascend, so ordering their keys orders the jobs.
        assert forall|a: int, b: int| 0 <= a < b < ready@.len() implies key_before(all_keys, #[trigger] ready@[a] as int, #[trigger] ready@[b] as int) by {
            let oa = order@[a] as int;
            let ob = order@[b] as int;
            assert(key_before(keys@, oa, ob));
            assert(keys@[oa] == all_keys[due@[oa] as int]);
            assert(keys@[ob] == all_keys[due@[ob] as int]);
            if oa < ob {
                assert(due@[oa] < due@[ob]);
            } else if ob < oa {
                assert(due@[ob] < due@[oa]);
            }
        }
        assert(draws@ =~= ready@.map_values(|k: usize| draw(pending@[k as int])));
        // Every due job is ready: `order` is a permutation of the due positions.
        assert forall|k: int| 0 <= k < pending@.len() && tick_plan_of(pending@, k, history, *prices, now as int).run_now
            implies ready@.contains(k as usize) by {
            let a = choose|a: int| 0 <= a < due@.len() && due@[a] == k as usize;
            assert(order@.contains(a as usize));
            let b = choose|b: int| 0 <= b < order@.len() && order@[b] == a as usize;
            assert(ready@[b] == due@[a]);
        }
    }
    TickDecision { scheduled, ready, launch }
}

// ---------------------------------------------------------------------------
// Claiming the jobs to launch
// ---------------------------------------------------------------------------

/// Whether the next ready job, drawing `w` watts, is worth claiming when
/// `launched` of the `free` slots are taken this tick and `committed` watts
/// are running.
pub open spec fn worth_claiming(free: int, launched: int, committed: int, w: int, budget: Option<i64>) -> bool {
    launched < free && fits(committed, w, budget)
}

/// Walking the ready jobs (draws `ws`, in launch order) and claiming each
/// one worth claiming, where `won[k]` tells whether the claim on the `k`-th
/// succeeded (another tick or process may have taken it): the positions
/// launched and the watts committed after the first `i`. A lost claim takes
/// neither a slot nor power, so the walk goes on to the next ready job.
pub open spec fn claim_run(ws: Seq<i64>, free: int, committed: int, budget: Option<i64>, won: Seq<bool>, i: int) -> (Seq<int>, int)
    decreases i,
{
    if i <= 0 {
        (Seq::empty(), committed)
    } else {
        let (launched, c) = claim_run(ws, free, committed, budget, won, i - 1);
        let w = ws[i - 1] as int;
        if worth_claiming(free, launched.len() as int, c, w, budget) && won[i - 1] {
            (launched.push(i - 1), c + if w > 0 { w } else { 0 })
        } else {
            (launched, c)
        }
    }
}

/// When every claim is won, the jobs launched are exactly the selection
/// `decide_tick` reports as `launch`.
pub proof fn winning_every_claim_launches_the_selection(
    ws: Seq<i64>,
    free: int,
    committed: int,
    budget: Option<i64>,
    won: Seq<bool>,
    i: int,
)
    requires
        0 <= i <= ws.len(),
        won.len() == ws.len(),
        forall|k: int| 0 <= k < won.len() ==> #[trigger] won[k],
    ensures
        claim_run(ws, free, committed, budget, won, i) == selection(ws, free, committed, budget, i),
    decreases i,
{
    if i > 0 {
        winning_every_claim_launches_the_selection(ws, free, committed, budget, won, i - 1);
        assert(won[i - 1]);
    }
}

/// A lost claim takes no slot and no power: the next ready job is weighed
/// with the same slots and headroom, so it can take the lost job's place.
pub proof fn a_lost_claim_leaves_its_slot_to_the_next(
    ws: Seq<i64>,
    free: int,
    committed: int,
    budget: Option<i64>,
    won: Seq<bool>,
    k: int,
)
    requires
        0 <= k < ws.len(),
        k < won.len(),
        !won[k],
    ensures
        claim_run(ws, free, committed, budget, won, k + 1) == claim_run(ws, free, committed, budget, won, k),
{
}

/// The jobs launched are ready jobs whose claims were won, in launch order,
/// and no more of them than the free slots.
pub proof fn claims_fill_at_most_the_free_slots(
    ws: Seq<i64>,
    free: int,
    committed: int,
    budget: Option<i64>,
    won: Seq<bool>,
    i: int,
)
    requires
        0 <= i <= ws.len(),
        won.len() == ws.len(),
        free >= 0,
    ensures
        claim_run(ws, free, committed, budget, won, i).0.len() <= free,
        forall|a: int| 0 <= a < claim_run(ws, free, committed, budget, won, i).0.len() ==> {
            let k = #[trigger] claim_run(ws, free, committed, budget, won, i).0[a];
            0 <= k < i && won[k]
        },
        forall|a: int, b: int| 0 <= a < b < claim_run(ws, free, committed, budget, won, i).0.len()
            ==> claim_run(ws, free, committed, budget, won, i).0[a] < claim_run(ws, free, committed, budget, won, i).0[b],
    decreases i,
{
    if i > 0 {
        claims_fill_at_most_the_free_slots(ws, free, committed, budget, won, i - 1);
    }
}

/// How far one tick's launching has got: the free slots it started with, how
/// many jobs it has launched, the watts committed (running jobs plus those
/// launched) and the site's power budget. The ready jobs are weighed one by
/// one in launch order: `wants` says whether to claim the next one, and
/// `won` records a claim that succeeded. Following `claim_run`, a lost claim
/// is simply not recorded and the next ready job is weighed.
#[derive(Debug, Clone)]
pub struct Launcher {
    pub free: usize,
    pub launched: usize,
    pub committed: i128,
    pub committed_at_start: i64,
    pub budget: Option<i64>,
}

impl Launcher {
    /// The counters agree: no more launched than free slots, and the
    /// committed load grown from its start by at most the largest draw per
    /// launch.
    pub open spec fn wf(&self) -> bool {
        &&& self.launched <= self.free
        &&& self.committed_at_start <= self.committed
        &&& self.committed <= self.committed_at_start + self.launched * MAX_WATTS
    }

    /// Start a tick's launching with `running` jobs drawing `committed_watts`.
    pub fn new(max_jobs: usize, running: i64, committed_watts: i64, budget_watts: Option<i64>) -> (l: Launcher)
        requires
            running >= 0,
        ensures
            l.wf(),
            l.free as int == spec_free_slots(max_jobs as int, running as int),
            l.launched == 0,
            l.committed == committed_watts as int,
            l.committed_at_start == committed_watts,
            l.budget == budget_watts,
    {
        Launcher {
            free: free_slots(max_jobs, running),
            launched: 0,
            committed: committed_watts as i128,
            committed_at_start: committed_watts,
            budget: budget_watts,
        }
    }

    /// Whether the next ready job, drawing `w` watts, should be claimed.
    pub fn wants(&self, w: i64) -> (b: bool)
        requires
            self.wf(),
        ensures
            b == worth_claiming(self.free as int, self.launched as int, self.committed as int, w as int, self.budget),
    {
        if self.launched >= self.free {
            return false;
        }
        match self.budget {
            Some(b) => self.committed + w as i128 <= b as i128 || self.committed <= 0,
            None => true,
        }
    }

    /// Record a won claim on a job drawing `w` watts: it takes a slot and
    /// its draw (unknown or negative draws count as none).
    pub fn won(&mut self, w: i64)
        requires
            old(self).wf(),
            valid_watts(w as int),
            worth_claiming(old(self).free as int, old(self).launched as int, old(self).committed as int, w as int, old(self).budget),
        ensures
            final(self).wf(),
            final(self).launched == old(self).launched + 1,
            final(self).committed == old(self).committed + if w > 0 { w as int } else { 0 },
            final(self).free == old(self).free,
            final(self).committed_at_start == old(self).committed_at_start,
            final(self).budget == old(self).budget,
    {
        proof {
            assert(self.launched * MAX_WATTS <= 0x1_0000_0000_0000_0000 * MAX_WATTS) by (nonlinear_arith)
                requires
                    self.launched < 0x1_0000_0000_0000_0000int,
                    MAX_WATTS > 0;
        }
        let add: i128 = if w > 0 { w as i128 } else { 0 };
        self.committed = self.committed + add;
        self.launched = self.launched + 1;
    }
}

/// `p` is a more urgent priority than `q` in the order the priorities are
/// declared (`Low`, `Normal`, `High`, `Critical`).
pub open spec fn more_urgent(p: Priority, q: Priority) -> bool {
    match (p, q) {
        (Priority::Critical, Priority::High) | (Priority::Critical, Priority::Normal) | (Priority::Critical, Priority::Low) => true,
        (Priority::High, Priority::Normal) | (Priority::High, Priority::Low) => true,
        (Priority::Normal, Priority::Low) => true,
        _ => false,
    }
}

/// A more urgent job launches before a less urgent one whatever their
/// deadlines and positions: in any launch order both appear in, the more
/// urgent comes first.
pub proof fn more_urgent_jobs_launch_first(keys: Seq<(Priority, Option<i64>)>, order: Seq<usize>, x: int, y: int)
    requires
        0 <= x < order.len(),
        0 <= y < order.len(),
        in_launch_order(keys, order),
        more_urgent(keys[order[x] as int].0, keys[order[y] as int].0),
    ensures
        key_before(keys, order[x] as int, order[y] as int),
        x < y,
{
    let a = order[x] as int;
    let b = order[y] as int;
    assert(keys[a].0.spec_rank() > keys[b].0.spec_rank());
    if y < x {
        assert(key_before(keys, b, a));
    } else if x == y {
    }
}

} // verus!
