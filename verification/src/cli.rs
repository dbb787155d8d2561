//! The command-line client's logic: reading the `--deadline` flag, building
//! the submission from the `add` arguments, explaining a failed connection,
//! and fitting text to the terminal.

use vstd::prelude::*;
use vstd::string::*;

use crate::form::CreateJobRequest;
use crate::job::{Policy, Priority};
use crate::model::Repeat;
use crate::text::{join, spec_join, spec_trim, trim, views};
use crate::time::{
    naive_time_in, oslo_clock, oslo_from_local, oslo_local_instants, oslo_wall_clock, parse_naive_time,
    parse_rfc3339, rfc3339_seconds,
};
use crate::units::valid_time;

verus! {

// ---------------------------------------------------------------------------
// Text
// ---------------------------------------------------------------------------

/// `t` occurs in `s` at position `i`.
pub open spec fn occurs_at(s: Seq<char>, t: Seq<char>, i: int) -> bool {
    0 <= i && i + t.len() <= s.len() && s.subrange(i, i + t.len()) == t
}

/// `t` occurs somewhere in `s`.
pub open spec fn spec_contains_text(s: Seq<char>, t: Seq<char>) -> bool {
    exists|i: int| occurs_at(s, t, i)
}

fn occurs_at_exec(s: &str, t: &str, i: usize) -> (b: bool)
    requires
        i + t@.len() <= s@.len(),
        s@.len() <= usize::MAX,
    ensures
        b == occurs_at(s@, t@, i as int),
{
    let m = t.unicode_len();
    let mut k: usize = 0;
    while k < m
        invariant
            m == t@.len(),
            i + m <= s@.len(),
            s@.len() <= usize::MAX,
            0 <= k <= m,
            forall|x: int| 0 <= x < k ==> s@[i + x] == t@[x],
        decreases m - k,
    {
        if s.get_char(i + k) != t.get_char(k) {
            assert(s@.subrange(i as int, i + m)[k as int] != t@[k as int]);
            return false;
        }
        k = k + 1;
    }
    assert(s@.subrange(i as int, i + m) =~= t@);
    true
}

/// Whether `t` occurs in `s`.
pub fn contains_text(s: &str, t: &str) -> (b: bool)
    ensures
        b == spec_contains_text(s@, t@),
{
    let n = s.unicode_len();
    let m = t.unicode_len();
    if m > n {
        return false;
    }
    if m == 0 {
        assert(s@.subrange(0, 0) =~= t@);
        assert(occurs_at(s@, t@, 0));
        return true;
    }
    let mut i: usize = 0;
    while i <= n - m
        invariant
            n == s@.len(),
            m == t@.len(),
            1 <= m <= n,
            0 <= i <= n - m + 1,
            forall|x: int| 0 <= x < i ==> !occurs_at(s@, t@, x),
        decreases n - m + 1 - i,
    {
        if occurs_at_exec(s, t, i) {
            return true;
        }
        i = i + 1;
    }
    false
}

/// Text cut to at most `max` characters: unchanged when it fits, otherwise
/// its first `max - 1` characters and an ellipsis.
pub open spec fn spec_truncate(s: Seq<char>, max: int) -> Seq<char> {
    if s.len() <= max {
        s
    } else {
        s.subrange(0, if max > 0 { max - 1 } else { 0 }) + seq!['…']
    }
}

/// Truncated text fits: no longer than `max` characters (for a `max` of at
/// least one), and what is kept is a prefix of the text.
pub proof fn truncated_text_fits(s: Seq<char>, max: int)
    requires
        max >= 1,
    ensures
        spec_truncate(s, max).len() <= max,
        s.len() <= max ==> spec_truncate(s, max) == s,
        s.len() > max ==> spec_truncate(s, max).subrange(0, max - 1) == s.subrange(0, max - 1),
{
    if s.len() > max {
        assert(spec_truncate(s, max).subrange(0, max - 1) =~= s.subrange(0, max - 1));
    }
}

/// Fit text to `max` characters, marking a cut with `…`.
pub fn truncate(s: &str, max: usize) -> (r: String)
    ensures
        r@ == spec_truncate(s@, max as int),
{
    let n = s.unicode_len();
    if n <= max {
        return String::from_str(s);
    }
    let keep: usize = if max > 0 { max - 1 } else { 0 };
    let mut r = String::from_str(s.substring_char(0, keep));
    proof {
        reveal_strlit("…");
    }
    r.append("…");
    assert(r@ =~= spec_truncate(s@, max as int));
    r
}

/// Position of the first newline at or after `i` (the length when none).
pub open spec fn next_newline(s: Seq<char>, i: int) -> int
    decreases s.len() - i,
{
    if i >= s.len() || i < 0 {
        s.len() as int
    } else if s[i] == '\n' {
        i
    } else {
        next_newline(s, i + 1)
    }
}

pub proof fn lemma_next_newline(s: Seq<char>, i: int)
    requires
        0 <= i <= s.len(),
    ensures
        i <= next_newline(s, i) <= s.len(),
        next_newline(s, i) < s.len() ==> s[next_newline(s, i)] == '\n',
    decreases s.len() - i,
{
    if i < s.len() && s[i] != '\n' {
        lemma_next_newline(s, i + 1);
    }
}

/// A line without its `\r` before the newline.
pub open spec fn strip_cr(line: Seq<char>) -> Seq<char> {
    if line.len() > 0 && line.last() == '\r' { line.drop_last() } else { line }
}

/// The lines of `s[i..]` as `str::lines` gives them: split after each
/// newline, the newline (and a `\r` right before it) dropped, and no empty
/// line after a final newline.
pub open spec fn lines_from(s: Seq<char>, i: int) -> Seq<Seq<char>>
    decreases s.len() - i,
{
    if i < 0 || i >= s.len() {
        Seq::empty()
    } else {
        let j = next_newline(s, i);
        if j >= s.len() {
            seq![s.subrange(i, s.len() as int)]
        } else {
            proof {
                lemma_next_newline(s, i);
            }
            seq![strip_cr(s.subrange(i, j))] + lines_from(s, j + 1)
        }
    }
}

/// Every line prefixed.
pub open spec fn prefixed(lines: Seq<Seq<char>>, prefix: Seq<char>) -> Seq<Seq<char>> {
    lines.map_values(|l: Seq<char>| prefix + l)
}

/// Indent every line of `s` by `prefix`.
pub fn indent(s: &str, prefix: &str) -> (r: String)
    ensures
        r@ == spec_join(prefixed(lines_from(s@, 0), prefix@), "\n"@),
{
    let n = s.unicode_len();
    let mut lines: Vec<String> = Vec::new();
    let mut i: usize = 0;
    while i < n
        invariant
            n == s@.len(),
            0 <= i <= n,
            views(lines@) + prefixed(lines_from(s@, i as int), prefix@)
                == prefixed(lines_from(s@, 0), prefix@),
        decreases n - i,
    {
        let mut j = i;
        while j < n && s.get_char(j) != '\n'
            invariant
                n == s@.len(),
                i <= j <= n,
                next_newline(s@, i as int) == next_newline(s@, j as int),
            decreases n - j,
        {
            j = j + 1;
        }
        proof {
            lemma_next_newline(s@, i as int);
        }
        let mut end = j;
        if j < n && end > i && s.get_char(end - 1) == '\r' {
            end = end - 1;
        }
        let mut line = String::from_str(prefix);
        line.append(s.substring_char(i, end));
        let ghost before = lines@;
        lines.push(line);
        proof {
            let cur = if j >= n { s@.subrange(i as int, n as int) } else { strip_cr(s@.subrange(i as int, j as int)) };
            assert(s@.subrange(i as int, end as int) =~= cur);
            assert(line@ =~= prefix@ + cur);
            assert(views(lines@) =~= views(before).push(prefix@ + cur));
            let rest = if j >= n { Seq::<Seq<char>>::empty() } else { lines_from(s@, j + 1) };
            assert(lines_from(s@, i as int) == seq![cur] + rest);
            assert(prefixed(lines_from(s@, i as int), prefix@) =~= seq![prefix@ + cur] + prefixed(rest, prefix@));
            if j >= n {
                assert(lines_from(s@, n as int) =~= Seq::<Seq<char>>::empty());
            }
        }
        i = if j < n { j + 1 } else { n };
        proof {
            let rest2 = lines_from(s@, i as int);
            assert(views(lines@) + prefixed(rest2, prefix@) =~= prefixed(lines_from(s@, 0), prefix@));
        }
    }
    proof {
        assert(lines_from(s@, n as int) =~= Seq::<Seq<char>>::empty());
        assert(views(lines@) =~= views(lines@) + prefixed(lines_from(s@, n as int), prefix@));
    }
    join(&lines, "\n")
}

// ---------------------------------------------------------------------------
// Connection errors
// ---------------------------------------------------------------------------

/// The context every request's connection failure is tagged with.
pub open spec fn connect_context() -> Seq<char> {
    "connecting to spotwatt server"@
}

/// What is said when the server can't be reached at `base_url`.
pub open spec fn unreachable_text(base_url: Seq<char>) -> Seq<char> {
    "couldn't reach a spotwatt server at "@ + base_url
        + " — is it running? (start it with `cargo run -p spotwatt-server`, or point --url / SPOTWATT_URL at it)"@
}

/// The message for a failed request, given its error chain (outermost
/// message first): a pointed hint when any link is a connection failure,
/// otherwise the outermost message.
pub open spec fn spec_friendly_connect_error(chain: Seq<Seq<char>>, base_url: Seq<char>) -> Seq<char> {
    if exists|i: int| 0 <= i < chain.len() && spec_contains_text(#[trigger] chain[i], connect_context()) {
        unreachable_text(base_url)
    } else {
        chain[0]
    }
}

/// A connection error is the most common first-run failure (server not
/// started, wrong `--url`): give it a pointed message instead of the raw
/// transport error. `chain` holds the error's messages, outermost first.
pub fn friendly_connect_error(chain: &Vec<String>, base_url: &str) -> (r: String)
    requires
        chain@.len() > 0,
    ensures
        r@ == spec_friendly_connect_error(views(chain@), base_url@),
{
    let n = chain.len();
    let mut i: usize = 0;
    while i < n
        invariant
            n == chain@.len(),
            0 <= i <= n,
            forall|k: int| 0 <= k < i ==> !spec_contains_text(#[trigger] views(chain@)[k], connect_context()),
        decreases n - i,
    {
        if contains_text(chain[i].as_str(), "connecting to spotwatt server") {
            let mut r = String::from_str("couldn't reach a spotwatt server at ");
            r.append(base_url);
            r.append(" — is it running? (start it with `cargo run -p spotwatt-server`, or point --url / SPOTWATT_URL at it)");
            assert(views(chain@)[i as int] == chain@[i as int]@);
            return r;
        }
        i = i + 1;
    }
    chain[0].clone()
}

// ---------------------------------------------------------------------------
// The --deadline flag
// ---------------------------------------------------------------------------

/// Why a `--deadline` value can't be used.
#[derive(Debug, Clone)]
pub enum DeadlineError {
    /// No instant after now shows that Oslo wall-clock time on today's or
    /// the next two local dates. (A daylight-saving change skips a time on
    /// at most one of them, so this does not happen with Oslo's rules.)
    NoOccurrence,
    /// Neither form parses; the (trimmed) input.
    Unparseable { input: String },
}

/// The first of the instants `inst` (earliest, latest) at which Oslo clocks
/// show a local time on one date that lies after `now`.
pub open spec fn first_after(inst: Option<(i64, i64)>, now: int) -> Option<i64> {
    match inst {
        Some((a, b)) => if a > now {
            Some(a)
        } else if b > now {
            Some(b)
        } else {
            None
        },
        None => None,
    }
}

/// The instant `--deadline` names, from what the time library made of the
/// trimmed input: its RFC 3339 reading, its `HH:MM` reading, and the
/// instants at which Oslo clocks show that time on today's, tomorrow's and
/// the day after's local date (two in an autumn fold, none in a spring
/// gap). A full timestamp is taken as written; otherwise the first of those
/// instants that lies after `now`.
pub open spec fn spec_resolve_deadline(
    rfc: Option<i64>,
    hm: Option<(u32, u32, u32)>,
    today: Option<(i64, i64)>,
    tomorrow: Option<(i64, i64)>,
    after: Option<(i64, i64)>,
    now: int,
) -> Result<i64, ()> {
    match rfc {
        Some(x) => Ok(x),
        None => match hm {
            Some(_) => match first_after(today, now) {
                Some(t) => Ok(t),
                None => match first_after(tomorrow, now) {
                    Some(t) => Ok(t),
                    None => match first_after(after, now) {
                        Some(t) => Ok(t),
                        None => Err(()),
                    },
                },
            },
            None => Err(()),
        },
    }
}

/// The instants at which Oslo clocks show the `HH:MM` reading `hm` on the
/// local date `day_offset` days after the date of `now`.
pub open spec fn spec_clock_instants(hm: Option<(u32, u32, u32)>, now: int, day_offset: int) -> Option<(i64, i64)> {
    match hm {
        Some((h, m, sec)) => oslo_from_local((oslo_clock(now as i64).0 + day_offset) as i32, h, m, sec),
        None => None,
    }
}

/// The instant `--deadline` names, given the current instant `now`: a full
/// RFC 3339 timestamp as written, or a bare `HH:MM` as the next time that
/// Oslo clocks show it: the first instant after `now` at which that local
/// time falls on today's, tomorrow's or the day after's date.
pub open spec fn spec_parse_deadline_arg(input: Seq<char>, now: int) -> Result<i64, ()> {
    let t = spec_trim(input);
    let hm = naive_time_in(t, "%H:%M"@);
    spec_resolve_deadline(
        rfc3339_seconds(t),
        hm,
        spec_clock_instants(hm, now, 0),
        spec_clock_instants(hm, now, 1),
        spec_clock_instants(hm, now, 2),
        now,
    )
}

/// Whether parsing failed for want of an occurrence (rather than for text
/// that is no time at all).
pub open spec fn spec_deadline_missing(input: Seq<char>) -> bool {
    let t = spec_trim(input);
    rfc3339_seconds(t) is None && naive_time_in(t, "%H:%M"@) is Some
}

/// The instants of one local date, in order.
pub open spec fn date_instants(inst: Option<(i64, i64)>) -> Seq<i64> {
    match inst {
        Some((a, b)) => seq![a, b],
        None => Seq::empty(),
    }
}

/// Every instant at which Oslo clocks show the time on the three dates.
pub open spec fn occurrences(today: Option<(i64, i64)>, tomorrow: Option<(i64, i64)>, after: Option<(i64, i64)>) -> Seq<i64> {
    date_instants(today) + date_instants(tomorrow) + date_instants(after)
}

proof fn lemma_first_after(inst: Option<(i64, i64)>, now: int)
    requires
        inst matches Some((a, b)) ==> a <= b,
    ensures
        first_after(inst, now) matches Some(t) ==> t > now && date_instants(inst).contains(t)
            && forall|i: int| 0 <= i < date_instants(inst).len() && date_instants(inst)[i] > now ==> t <= date_instants(inst)[i],
        first_after(inst, now) is None ==> forall|i: int| 0 <= i < date_instants(inst).len() ==> date_instants(inst)[i] <= now,
{
    if let Some((a, b)) = inst {
        assert(date_instants(inst)[0] == a);
        assert(date_instants(inst)[1] == b);
    }
}

/// A bare `HH:MM` deadline is its next occurrence: given the instants at
/// which Oslo clocks show it on today's, tomorrow's and the day after's date
/// (each date's earliest first, and the dates in order), it resolves exactly
/// when one of them lies after `now`, and then to the earliest such instant.
pub proof fn clock_time_deadlines_lie_ahead(
    hm: (u32, u32, u32),
    today: Option<(i64, i64)>,
    tomorrow: Option<(i64, i64)>,
    after: Option<(i64, i64)>,
    now: int,
)
    requires
        forall|i: int, j: int| 0 <= i < j < occurrences(today, tomorrow, after).len()
            ==> occurrences(today, tomorrow, after)[i] <= occurrences(today, tomorrow, after)[j],
    ensures
        spec_resolve_deadline(None, Some(hm), today, tomorrow, after, now) is Ok
            <==> exists|i: int| 0 <= i < occurrences(today, tomorrow, after).len() && occurrences(today, tomorrow, after)[i] > now,
        spec_resolve_deadline(None, Some(hm), today, tomorrow, after, now) matches Ok(t) ==> {
            &&& t > now
            &&& occurrences(today, tomorrow, after).contains(t)
            &&& forall|i: int| 0 <= i < occurrences(today, tomorrow, after).len() && occurrences(today, tomorrow, after)[i] > now
                ==> t <= occurrences(today, tomorrow, after)[i]
        },
{
    let x = date_instants(today);
    let y = date_instants(tomorrow);
    let z = date_instants(after);
    let cs = occurrences(today, tomorrow, after);
    assert(cs == x + y + z);
    assert forall|i: int| 0 <= i < x.len() implies cs[i] == x[i] by {}
    assert forall|i: int| 0 <= i < y.len() implies cs[x.len() + i] == y[i] by {}
    assert forall|i: int| 0 <= i < z.len() implies cs[x.len() + y.len() + i] == z[i] by {}
    assert(today matches Some((a, b)) ==> a <= b) by {
        if let Some((a, b)) = today {
            assert(cs[0] == a && cs[1] == b);
        }
    }
    assert(tomorrow matches Some((a, b)) ==> a <= b) by {
        if let Some((a, b)) = tomorrow {
            assert(cs[x.len() as int] == a && cs[(x.len() + 1) as int] == b);
        }
    }
    assert(after matches Some((a, b)) ==> a <= b) by {
        if let Some((a, b)) = after {
            assert(cs[(x.len() + y.len()) as int] == a && cs[(x.len() + y.len() + 1) as int] == b);
        }
    }
    lemma_first_after(today, now);
    lemma_first_after(tomorrow, now);
    lemma_first_after(after, now);
    assert forall|i: int| 0 <= i < cs.len() implies
        (i < x.len() && cs[i] == x[i])
        || (x.len() <= i < x.len() + y.len() && cs[i] == y[i - x.len()])
        || (x.len() + y.len() <= i && cs[i] == z[i - x.len() - y.len()]) by {
        if i < x.len() {
        } else if i < x.len() + y.len() {
            assert(cs[x.len() + (i - x.len())] == y[i - x.len()]);
        } else {
            assert(cs[x.len() + y.len() + (i - x.len() - y.len())] == z[i - x.len() - y.len()]);
        }
    }
    match first_after(today, now) {
        Some(t) => {
            let k = choose|k: int| 0 <= k < x.len() && x[k] == t;
            assert(cs[k] == t);
        },
        None => match first_after(tomorrow, now) {
            Some(t) => {
                let k = choose|k: int| 0 <= k < y.len() && y[k] == t;
                assert(cs[(x.len() + k) as int] == t);
            },
            None => match first_after(after, now) {
                Some(t) => {
                    let k = choose|k: int| 0 <= k < z.len() && z[k] == t;
                    assert(cs[(x.len() + y.len() + k) as int] == t);
                },
                None => {},
            },
        },
    }
}

/// Resolve a `--deadline` from its readings (see `spec_resolve_deadline`);
/// `input` is the trimmed text, reported back when nothing reads it.
pub fn resolve_deadline(
    input: String,
    rfc: Option<i64>,
    hm: Option<(u32, u32, u32)>,
    today: Option<(i64, i64)>,
    tomorrow: Option<(i64, i64)>,
    after: Option<(i64, i64)>,
    now: i64,
) -> (r: Result<i64, DeadlineError>)
    ensures
        match r {
            Ok(t) => spec_resolve_deadline(rfc, hm, today, tomorrow, after, now as int) == Ok::<i64, ()>(t),
            Err(DeadlineError::NoOccurrence) => spec_resolve_deadline(rfc, hm, today, tomorrow, after, now as int) is Err
                && rfc is None && hm is Some,
            Err(DeadlineError::Unparseable { input: shown }) => spec_resolve_deadline(rfc, hm, today, tomorrow, after, now as int) is Err
                && !(rfc is None && hm is Some) && shown@ == input@,
        },
{
    match rfc {
        Some(x) => return Ok(x),
        None => {},
    }
    if hm.is_none() {
        return Err(DeadlineError::Unparseable { input });
    }
    match first_instant_after(today, now) {
        Some(t) => return Ok(t),
        None => {},
    }
    match first_instant_after(tomorrow, now) {
        Some(t) => return Ok(t),
        None => {},
    }
    match first_instant_after(after, now) {
        Some(t) => Ok(t),
        None => Err(DeadlineError::NoOccurrence),
    }
}

fn first_instant_after(inst: Option<(i64, i64)>, now: i64) -> (r: Option<i64>)
    ensures
        r == first_after(inst, now as int),
{
    match inst {
        Some((a, b)) => if a > now {
            Some(a)
        } else if b > now {
            Some(b)
        } else {
            None
        },
        None => None,
    }
}

/// Parse the `--deadline` flag: `HH:MM` (Europe/Oslo, next occurrence) or a
/// full RFC 3339 timestamp.
pub fn parse(input: &str, now: i64) -> (r: Result<i64, DeadlineError>)
    requires
        valid_time(now as int),
    ensures
        match r {
            Ok(t) => spec_parse_deadline_arg(input@, now as int) == Ok::<i64, ()>(t),
            Err(DeadlineError::NoOccurrence) => spec_parse_deadline_arg(input@, now as int) is Err
                && spec_deadline_missing(input@),
            Err(DeadlineError::Unparseable { input: shown }) => spec_parse_deadline_arg(input@, now as int) is Err
                && !spec_deadline_missing(input@) && shown@ == spec_trim(input@),
        },
{
    let t = trim(input);
    let rfc = parse_rfc3339(t.as_str());
    let hm = parse_naive_time(t.as_str(), "%H:%M");
    let (today, tomorrow, after) = match hm {
        Some((h, m, sec)) => {
            let (day, _, _) = oslo_wall_clock(now);
            (
                oslo_local_instants(day, h, m, sec),
                oslo_local_instants(day + 1, h, m, sec),
                oslo_local_instants(day + 2, h, m, sec),
            )
        },
        None => (None, None, None),
    };
    resolve_deadline(t, rfc, hm, today, tomorrow, after, now)
}

// ---------------------------------------------------------------------------
// `add`
// ---------------------------------------------------------------------------

/// The `--policy` choices.
#[derive(Debug, Clone, Copy, PartialEq, Eq, Structural)]
pub enum PolicyArg {
    CheapestWindow,
    Threshold,
    Immediate,
}

/// The `add` subcommand's arguments, numbers in the library's units
/// (threshold µNOK/kWh, power watts).
#[derive(Debug, Clone)]
pub struct AddArgs {
    pub name: String,
    pub policy: PolicyArg,
    pub threshold: Option<i64>,
    /// Shorthand for `--policy=immediate`.
    pub now: bool,
    pub duration: Option<i64>,
    pub deadline: Option<String>,
    pub power: Option<i64>,
    pub priority: Priority,
    pub daily: bool,
    /// The command's words.
    pub cmd: Vec<String>,
}

/// Why `add` could not build a submission.
#[derive(Debug, Clone)]
pub enum AddError {
    /// `--policy=threshold` without `--threshold`.
    ThresholdMissing,
    Deadline(DeadlineError),
}

/// The policy `add` asks for, or none when a threshold is missing.
pub open spec fn add_policy(args: AddArgs) -> Option<Policy> {
    if args.now {
        Some(Policy::Immediate)
    } else {
        match args.policy {
            PolicyArg::Immediate => Some(Policy::Immediate),
            PolicyArg::CheapestWindow => Some(Policy::CheapestWindow),
            PolicyArg::Threshold => match args.threshold {
                Some(max) => Some(Policy::Threshold { max_nok_per_kwh: max }),
                None => None,
            },
        }
    }
}

/// Build the job submission from the `add` arguments: the command's words
/// joined by spaces, the deadline read as `parse` reads it.
pub fn add_request(args: &AddArgs, now: i64) -> (r: Result<CreateJobRequest, AddError>)
    requires
        valid_time(now as int),
    ensures
        match r {
            Ok(req) => {
                &&& (add_policy(*args) matches Some(p) && req.policy == p)
                &&& req.name@ == args.name@
                &&& req.command@ == spec_join(views(args.cmd@), " "@)
                &&& req.duration_minutes == args.duration
                &&& req.deadline == (match args.deadline {
                    Some(d) => Some(spec_parse_deadline_arg(d@, now as int)->Ok_0),
                    None => None::<i64>,
                })
                &&& (args.deadline matches Some(d) ==> spec_parse_deadline_arg(d@, now as int) is Ok)
                &&& req.power_watts == args.power
                &&& req.priority == args.priority
                &&& req.repeat == (if args.daily { Repeat::Daily } else { Repeat::Once })
            },
            Err(AddError::ThresholdMissing) => add_policy(*args) is None,
            Err(AddError::Deadline(_)) => {
                &&& add_policy(*args) is Some
                &&& args.deadline matches Some(d) && spec_parse_deadline_arg(d@, now as int) is Err
            },
        },
{
    let policy = if args.now {
        Policy::Immediate
    } else {
        match args.policy {
            PolicyArg::Immediate => Policy::Immediate,
            PolicyArg::CheapestWindow => Policy::CheapestWindow,
            PolicyArg::Threshold => match args.threshold {
                Some(max) => Policy::Threshold { max_nok_per_kwh: max },
                None => return Err(AddError::ThresholdMissing),
            },
        }
    };
    let deadline = match &args.deadline {
        Some(d) => match parse(d.as_str(), now) {
            Ok(t) => Some(t),
            Err(e) => return Err(AddError::Deadline(e)),
        },
        None => None,
    };
    Ok(CreateJobRequest {
        name: args.name.clone(),
        command: join(&args.cmd, " "),
        policy,
        duration_minutes: args.duration,
        deadline,
        power_watts: args.power,
        priority: args.priority,
        repeat: if args.daily { Repeat::Daily } else { Repeat::Once },
    })
}

} // verus!
