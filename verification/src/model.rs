//! Job records as stored and shown, their text encodings, and the
//! recurrence rule for daily jobs.

use vstd::prelude::*;

use crate::job::{JobSpec, Policy, Priority};
use crate::text::str_eq;
use crate::units::{valid_time, SECS_PER_DAY};

verus! {

/// Lifecycle state of a job.
#[derive(Debug, Clone, Copy, PartialEq, Eq, Structural)]
pub enum JobStatus {
    Pending,
    Running,
    Completed,
    Failed,
    Cancelled,
}

/// How often a job repeats.
#[derive(Debug, Clone, Copy, PartialEq, Eq, Structural)]
pub enum Repeat {
    /// Runs once (stored as `none`).
    Once,
    Daily,
}

pub open spec fn status_name(s: JobStatus) -> Seq<char> {
    match s {
        JobStatus::Pending => "pending"@,
        JobStatus::Running => "running"@,
        JobStatus::Completed => "completed"@,
        JobStatus::Failed => "failed"@,
        JobStatus::Cancelled => "cancelled"@,
    }
}

/// Stored text back to a status; anything unknown reads as pending.
pub open spec fn spec_status_from_db(s: Seq<char>) -> JobStatus {
    if s == "running"@ {
        JobStatus::Running
    } else if s == "completed"@ {
        JobStatus::Completed
    } else if s == "failed"@ {
        JobStatus::Failed
    } else if s == "cancelled"@ {
        JobStatus::Cancelled
    } else {
        JobStatus::Pending
    }
}

impl JobStatus {
    /// The status as stored and shown.
    pub fn as_str(&self) -> (r: &'static str)
        ensures
            r@ == status_name(*self),
    {
        match self {
            JobStatus::Pending => "pending",
            JobStatus::Running => "running",
            JobStatus::Completed => "completed",
            JobStatus::Failed => "failed",
            JobStatus::Cancelled => "cancelled",
        }
    }

    /// Read a stored status; unknown text reads as pending.
    pub fn from_db(s: &str) -> (r: JobStatus)
        ensures
            r == spec_status_from_db(s@),
    {
        if str_eq(s, "running") {
            JobStatus::Running
        } else if str_eq(s, "completed") {
            JobStatus::Completed
        } else if str_eq(s, "failed") {
            JobStatus::Failed
        } else if str_eq(s, "cancelled") {
            JobStatus::Cancelled
        } else {
            JobStatus::Pending
        }
    }
}

/// Reading back what was stored gives the same status.
pub proof fn status_round_trips(s: JobStatus)
    ensures
        spec_status_from_db(status_name(s)) == s,
{
    reveal_strlit("pending");
    reveal_strlit("running");
    reveal_strlit("completed");
    reveal_strlit("failed");
    reveal_strlit("cancelled");
    assert("pending"@[0] != "running"@[0]);
    assert("pending"@.len() != "completed"@.len());
    assert("pending"@.len() != "failed"@.len());
    assert("pending"@.len() != "cancelled"@.len());
    assert("running"@.len() != "completed"@.len());
    assert("running"@.len() != "failed"@.len());
    assert("running"@.len() != "cancelled"@.len());
    assert("completed"@.len() != "failed"@.len());
    assert("completed"@[1] != "cancelled"@[1]);
    assert("failed"@.len() != "cancelled"@.len());
}

pub open spec fn repeat_name(r: Repeat) -> Seq<char> {
    match r {
        Repeat::Once => "none"@,
        Repeat::Daily => "daily"@,
    }
}

pub open spec fn spec_repeat_from_db(s: Seq<char>) -> Repeat {
    if s == "daily"@ { Repeat::Daily } else { Repeat::Once }
}

impl Repeat {
    pub fn as_str(&self) -> (r: &'static str)
        ensures
            r@ == repeat_name(*self),
    {
        match self {
            Repeat::Once => "none",
            Repeat::Daily => "daily",
        }
    }

    /// Read a stored cadence; unknown text reads as one-off.
    pub fn from_db(s: &str) -> (r: Repeat)
        ensures
            r == spec_repeat_from_db(s@),
    {
        if str_eq(s, "daily") { Repeat::Daily } else { Repeat::Once }
    }

    /// A job runs once unless told otherwise.
    pub fn default_repeat() -> (r: Repeat)
        ensures
            r == Repeat::Once,
    {
        Repeat::Once
    }
}

/// Reading back what was stored gives the same cadence.
pub proof fn repeat_round_trips(r: Repeat)
    ensures
        spec_repeat_from_db(repeat_name(r)) == r,
{
    reveal_strlit("none");
    reveal_strlit("daily");
    assert("none"@.len() != "daily"@.len());
}

pub open spec fn priority_name(p: Priority) -> Seq<char> {
    match p {
        Priority::Low => "low"@,
        Priority::Normal => "normal"@,
        Priority::High => "high"@,
        Priority::Critical => "critical"@,
    }
}

/// Stored or submitted text to a priority; anything unknown is normal.
pub open spec fn spec_priority_from_text(s: Seq<char>) -> Priority {
    if s == "low"@ {
        Priority::Low
    } else if s == "high"@ {
        Priority::High
    } else if s == "critical"@ {
        Priority::Critical
    } else {
        Priority::Normal
    }
}

/// The priority as stored and shown.
pub fn priority_to_db(p: Priority) -> (r: &'static str)
    ensures
        r@ == priority_name(p),
{
    match p {
        Priority::Low => "low",
        Priority::Normal => "normal",
        Priority::High => "high",
        Priority::Critical => "critical",
    }
}

/// Read a priority; unknown text is normal.
pub fn priority_from_text(s: &str) -> (r: Priority)
    ensures
        r == spec_priority_from_text(s@),
{
    if str_eq(s, "low") {
        Priority::Low
    } else if str_eq(s, "high") {
        Priority::High
    } else if str_eq(s, "critical") {
        Priority::Critical
    } else {
        Priority::Normal
    }
}

/// Reading back what was stored gives the same priority.
pub proof fn priority_round_trips(p: Priority)
    ensures
        spec_priority_from_text(priority_name(p)) == p,
{
    reveal_strlit("low");
    reveal_strlit("normal");
    reveal_strlit("high");
    reveal_strlit("critical");
    assert("low"@.len() != "normal"@.len());
    assert("low"@.len() != "high"@.len());
    assert("low"@.len() != "critical"@.len());
    assert("normal"@.len() != "high"@.len());
    assert("normal"@.len() != "critical"@.len());
    assert("high"@.len() != "critical"@.len());
}

pub open spec fn policy_kind_name(p: Policy) -> Seq<char> {
    match p {
        Policy::Immediate => "immediate"@,
        Policy::Threshold { .. } => "threshold"@,
        Policy::CheapestWindow => "cheapest"@,
    }
}

pub open spec fn policy_threshold(p: Policy) -> Option<i64> {
    match p {
        Policy::Threshold { max_nok_per_kwh } => Some(max_nok_per_kwh),
        _ => None,
    }
}

/// A stored policy kind and threshold back to a policy: unknown kinds are
/// cheapest-window, and a threshold policy without a stored threshold has 0.
pub open spec fn spec_policy_from_db(kind: Seq<char>, threshold: Option<i64>) -> Policy {
    if kind == "immediate"@ {
        Policy::Immediate
    } else if kind == "threshold"@ {
        Policy::Threshold { max_nok_per_kwh: match threshold { Some(t) => t, None => 0 } }
    } else {
        Policy::CheapestWindow
    }
}

/// The policy as a stored kind and optional threshold (µNOK/kWh).
pub fn policy_to_db(p: &Policy) -> (r: (&'static str, Option<i64>))
    ensures
        r.0@ == policy_kind_name(*p),
        r.1 == policy_threshold(*p),
{
    match p {
        Policy::Immediate => ("immediate", None),
        Policy::Threshold { max_nok_per_kwh } => ("threshold", Some(*max_nok_per_kwh)),
        Policy::CheapestWindow => ("cheapest", None),
    }
}

/// Read a stored policy.
pub fn policy_from_db(kind: &str, threshold: Option<i64>) -> (r: Policy)
    ensures
        r == spec_policy_from_db(kind@, threshold),
{
    if str_eq(kind, "immediate") {
        Policy::Immediate
    } else if str_eq(kind, "threshold") {
        Policy::Threshold { max_nok_per_kwh: match threshold { Some(t) => t, None => 0 } }
    } else {
        Policy::CheapestWindow
    }
}

/// Reading back what was stored gives the same policy.
pub proof fn policy_round_trips(p: Policy)
    ensures
        spec_policy_from_db(policy_kind_name(p), policy_threshold(p)) == p,
{
    reveal_strlit("immediate");
    reveal_strlit("threshold");
    reveal_strlit("cheapest");
    assert("immediate"@[0] != "threshold"@[0]);
    assert("immediate"@.len() != "cheapest"@.len());
    assert("threshold"@.len() != "cheapest"@.len());
}

/// A full job record as persisted and shown in the dashboard. Instants are
/// Unix seconds, power is watts, costs are µNOK.
#[derive(Debug, Clone)]
pub struct Job {
    pub id: i64,
    pub name: String,
    pub command: String,
    pub policy: Policy,
    pub duration_minutes: i64,
    pub deadline: Option<i64>,
    pub power_watts: Option<i64>,
    pub priority: Priority,
    pub repeat: Repeat,
    pub earliest_start: Option<i64>,
    pub status: JobStatus,
    pub scheduled_start: Option<i64>,
    pub created_at: i64,
    pub started_at: Option<i64>,
    pub finished_at: Option<i64>,
    pub exit_code: Option<i64>,
    pub output: Option<String>,
    pub est_cost_nok: Option<i128>,
    pub baseline_cost_nok: Option<i128>,
}

/// Fields needed to create a new job.
#[derive(Debug, Clone)]
pub struct NewJob {
    pub name: String,
    pub command: String,
    pub policy: Policy,
    pub duration_minutes: i64,
    pub deadline: Option<i64>,
    pub power_watts: Option<i64>,
    pub priority: Priority,
    pub repeat: Repeat,
    pub earliest_start: Option<i64>,
    pub created_at: i64,
}

impl Job {
    /// The part of the job that drives the scheduling decision.
    pub fn spec(&self) -> (s: JobSpec)
        ensures
            s == (JobSpec {
                policy: self.policy,
                duration_minutes: self.duration_minutes,
                deadline: self.deadline,
                earliest_start: self.earliest_start,
            }),
    {
        JobSpec {
            policy: self.policy,
            duration_minutes: self.duration_minutes,
            deadline: self.deadline,
            earliest_start: self.earliest_start,
        }
    }
}

/// A job row as read from storage: texts not yet decoded.
#[derive(Debug, Clone)]
pub struct JobRow {
    pub id: i64,
    pub name: String,
    pub command: String,
    pub policy_kind: String,
    pub threshold_nok: Option<i64>,
    pub duration_minutes: i64,
    pub deadline: Option<i64>,
    pub power_watts: Option<i64>,
    pub priority: String,
    pub repeat_kind: String,
    pub earliest_start: Option<i64>,
    pub status: String,
    pub scheduled_start: Option<i64>,
    pub created_at: i64,
    pub started_at: Option<i64>,
    pub finished_at: Option<i64>,
    pub exit_code: Option<i64>,
    pub output: Option<String>,
    pub est_cost_nok: Option<i128>,
    pub baseline_cost_nok: Option<i128>,
}

/// A stored instant, if it is one the library can use.
pub open spec fn spec_from_ts(t: Option<i64>) -> Option<i64> {
    match t {
        Some(s) => if valid_time(s as int) { Some(s) } else { None },
        None => None,
    }
}

fn from_ts(t: Option<i64>) -> (r: Option<i64>)
    ensures
        r == spec_from_ts(t),
{
    match t {
        Some(s) => if -crate::units::MAX_TIME <= s && s <= crate::units::MAX_TIME { Some(s) } else { None },
        None => None,
    }
}

/// Decode a stored row into a job. Stored instants out of range read as
/// absent; a creation time out of range reads as `now`.
pub fn job_from_row(row: JobRow, now: i64) -> (j: Job)
    ensures
        j.id == row.id,
        j.name == row.name,
        j.command == row.command,
        j.policy == spec_policy_from_db(row.policy_kind@, row.threshold_nok),
        j.duration_minutes == row.duration_minutes,
        j.deadline == spec_from_ts(row.deadline),
        j.power_watts == row.power_watts,
        j.priority == spec_priority_from_text(row.priority@),
        j.repeat == spec_repeat_from_db(row.repeat_kind@),
        j.earliest_start == spec_from_ts(row.earliest_start),
        j.status == spec_status_from_db(row.status@),
        j.scheduled_start == spec_from_ts(row.scheduled_start),
        j.created_at == (match spec_from_ts(Some(row.created_at)) { Some(c) => c, None => now }),
        j.started_at == spec_from_ts(row.started_at),
        j.finished_at == spec_from_ts(row.finished_at),
        j.exit_code == row.exit_code,
        j.output == row.output,
        j.est_cost_nok == row.est_cost_nok,
        j.baseline_cost_nok == row.baseline_cost_nok,
{
    let policy = policy_from_db(row.policy_kind.as_str(), row.threshold_nok);
    let priority = priority_from_text(row.priority.as_str());
    let repeat = Repeat::from_db(row.repeat_kind.as_str());
    let status = JobStatus::from_db(row.status.as_str());
    let created_at = match from_ts(Some(row.created_at)) {
        Some(c) => c,
        None => now,
    };
    Job {
        id: row.id,
        name: row.name,
        command: row.command,
        policy,
        duration_minutes: row.duration_minutes,
        deadline: from_ts(row.deadline),
        power_watts: row.power_watts,
        priority,
        repeat,
        earliest_start: from_ts(row.earliest_start),
        status,
        scheduled_start: from_ts(row.scheduled_start),
        created_at,
        started_at: from_ts(row.started_at),
        finished_at: from_ts(row.finished_at),
        exit_code: row.exit_code,
        output: row.output,
        est_cost_nok: row.est_cost_nok,
        baseline_cost_nok: row.baseline_cost_nok,
    }
}

/// Whole minutes of a measured run, rounded to the nearest minute (halves
/// round up).
pub fn minutes_from_secs(secs: i64) -> (m: i64)
    requires
        secs >= 0,
    ensures
        m == (secs + 30) / 60,
{
    secs / 60 + if secs % 60 >= 30 { 1 } else { 0 }
}

/// The first deadline after `now` on the daily cadence of `dl`: one or more
/// whole days after it.
pub open spec fn spec_roll_forward(dl: int, now: int) -> int {
    let k = (now - dl) / (SECS_PER_DAY as int) + 1;
    dl + (SECS_PER_DAY as int) * (if k > 1 { k } else { 1 })
}

/// The deadline and earliest start of the next occurrence of a daily job.
/// With a deadline the next cycle is `[next deadline − 1 day, next deadline]`,
/// the next deadline being the first on the daily cadence that lies after
/// `now`. Without one, the job may run again one day after its anchor: the
/// later of its previous earliest start and its actual start, whichever is
/// known, else `now`.
pub open spec fn spec_next_window(deadline: Option<i64>, earliest_start: Option<i64>, started_at: Option<i64>, now: int) -> (Option<int>, int) {
    match deadline {
        Some(dl) => {
            let next = spec_roll_forward(dl as int, now);
            (Some(next), next - SECS_PER_DAY)
        },
        None => {
            let anchor = match (earliest_start, started_at) {
                (Some(e), Some(s)) => if e > s { e as int } else { s as int },
                (Some(e), None) => e as int,
                (None, Some(s)) => s as int,
                (None, None) => now,
            };
            (None, anchor + SECS_PER_DAY)
        },
    }
}

/// Schedule the next occurrence of a recurring job, given the one that just
/// finished. One-off jobs get none. The next occurrence always has an
/// earliest start, so a daily job cannot fire again the same day.
pub fn next_occurrence(finished: &Job, now: i64) -> (r: Option<NewJob>)
    requires
        valid_time(now as int),
        finished.deadline matches Some(d) ==> valid_time(d as int),
        finished.earliest_start matches Some(e) ==> valid_time(e as int),
        finished.started_at matches Some(s) ==> valid_time(s as int),
    ensures
        r is None <==> finished.repeat == Repeat::Once,
        r matches Some(n) ==> {
            let (dl, es) = spec_next_window(finished.deadline, finished.earliest_start, finished.started_at, now as int);
            &&& n.deadline == (match dl { Some(d) => Some(d as i64), None => None::<i64> })
            &&& n.earliest_start == Some(es as i64)
            &&& n.name == finished.name
            &&& n.command == finished.command
            &&& n.policy == finished.policy
            &&& n.duration_minutes == finished.duration_minutes
            &&& n.power_watts == finished.power_watts
            &&& n.priority == finished.priority
            &&& n.repeat == finished.repeat
            &&& n.created_at == now
        },
{
    if finished.repeat == Repeat::Once {
        return None;
    }
    let step = SECS_PER_DAY;
    let (deadline, earliest_start) = match finished.deadline {
        Some(dl) => {
            let mut next_dl = dl + step;
            let ghost mut j: int = 1;
            while next_dl <= now
                invariant
                    valid_time(dl as int),
                    valid_time(now as int),
                    step == SECS_PER_DAY,
                    j >= 1,
                    next_dl == dl + SECS_PER_DAY * j,
                    next_dl - step <= now || j == 1,
                decreases now + step - next_dl,
            {
                next_dl = next_dl + step;
                proof {
                    j = j + 1;
                    assert(next_dl == dl + SECS_PER_DAY * j) by (nonlinear_arith)
                        requires next_dl == dl + SECS_PER_DAY * (j - 1) + SECS_PER_DAY;
                }
            }
            proof {
                lemma_roll_forward(dl as int, now as int, j);
            }
            (Some(next_dl), Some(next_dl - step))
        },
        None => {
            let anchor = match (finished.earliest_start, finished.started_at) {
                (Some(e), Some(s)) => if e > s { e } else { s },
                (Some(e), None) => e,
                (None, Some(s)) => s,
                (None, None) => now,
            };
            (None, Some(anchor + step))
        },
    };
    Some(NewJob {
        name: finished.name.clone(),
        command: finished.command.clone(),
        policy: finished.policy,
        duration_minutes: finished.duration_minutes,
        deadline,
        power_watts: finished.power_watts,
        priority: finished.priority,
        repeat: finished.repeat,
        earliest_start,
        created_at: now,
    })
}

/// The loop's rolled deadline is the closed form.
proof fn lemma_roll_forward(dl: int, now: int, j: int)
    requires
        j >= 1,
        dl + SECS_PER_DAY * j > now,
        dl + SECS_PER_DAY * j - SECS_PER_DAY <= now || j == 1,
    ensures
        dl + SECS_PER_DAY * j == spec_roll_forward(dl, now),
{
    let d = SECS_PER_DAY as int;
    let next = dl + d * j;
    let q = (now - dl) / d;
    vstd::arithmetic::div_mod::lemma_fundamental_div_mod(now - dl, d);
    assert(now - dl == d * q + (now - dl) % d);
    if next - d <= now {
        // dl + d*(j-1) <= now < dl + d*j, so j - 1 == q.
        assert(d * (j - 1) <= now - dl < d * j) by (nonlinear_arith)
            requires next == dl + d * j, next - d <= now, now < next;
        assert(j - 1 == q) by (nonlinear_arith)
            requires
                d * (j - 1) <= now - dl,
                now - dl < d * j,
                now - dl == d * q + (now - dl) % d,
                0 <= (now - dl) % d < d,
                d > 0;
    } else {
        assert(j == 1);
        assert(now - dl < d);
        assert(q <= 0) by (nonlinear_arith)
            requires now - dl < d, now - dl == d * q + (now - dl) % d, 0 <= (now - dl) % d < d, d > 0;
    }
}

/// The next deadline of a daily job lies after `now`, on the daily cadence
/// of the old one, at least a day after it, and is the first such instant.
pub proof fn rolled_deadline_is_the_next_future_one(dl: int, now: int)
    ensures
        spec_roll_forward(dl, now) > now,
        spec_roll_forward(dl, now) >= dl + SECS_PER_DAY,
        (spec_roll_forward(dl, now) - dl) % (SECS_PER_DAY as int) == 0,
        spec_roll_forward(dl, now) - SECS_PER_DAY <= now || spec_roll_forward(dl, now) == dl + SECS_PER_DAY,
{
    let d = SECS_PER_DAY as int;
    let q = (now - dl) / d;
    vstd::arithmetic::div_mod::lemma_fundamental_div_mod(now - dl, d);
    let k = if q + 1 > 1 { q + 1 } else { 1 };
    assert(spec_roll_forward(dl, now) == dl + d * k);
    assert(d * k > now - dl) by (nonlinear_arith)
        requires now - dl == d * q + (now - dl) % d, 0 <= (now - dl) % d < d, k >= q + 1, d > 0;
    assert(d * k >= d) by (nonlinear_arith)
        requires k >= 1, d > 0;
    vstd::arithmetic::div_mod::lemma_mod_multiples_basic(k, d);
    assert((d * k) % d == 0) by {
        vstd::arithmetic::div_mod::lemma_mod_multiples_basic(k, d);
        assert(k * d == d * k) by (nonlinear_arith);
    }
    assert(spec_roll_forward(dl, now) - dl == d * k);
    if q + 1 > 1 {
        assert(d * k - d <= now - dl) by (nonlinear_arith)
            requires k == q + 1, now - dl == d * q + (now - dl) % d, 0 <= (now - dl) % d;
    }
}

} // verus!
