//! What a finished run is recorded as: its status, exit code, captured
//! output (bounded in size) and what the run cost.

use vstd::prelude::*;
use vstd::string::*;
use vstd::utf8::*;

use crate::cost::{interval_cost, spec_interval_cost};
use crate::model::JobStatus;
use crate::price::PriceSeries;
use crate::text::{spec_trim, trim};
use crate::units::{valid_time, valid_watts};

verus! {

/// Most bytes of captured output kept before it is clipped.
pub const MAX_OUTPUT_BYTES: usize = 8_000;

/// Bytes in the UTF-8 encoding of `c`.
pub open spec fn char_width(c: char) -> int {
    if (c as u32) <= 0x7F {
        1
    } else if (c as u32) <= 0x7FF {
        2
    } else if (c as u32) <= 0xFFFF {
        3
    } else {
        4
    }
}

/// Bytes in the UTF-8 encoding of `s`.
pub open spec fn utf8_len(s: Seq<char>) -> int {
    encode_utf8(s).len() as int
}

proof fn lemma_scalar_width(c: char)
    ensures
        encode_scalar(c as u32).len() == char_width(c),
{
    broadcast use char_is_scalar;
    assert(is_scalar(c as u32));
}

proof fn lemma_utf8_len_push(s: Seq<char>, c: char)
    ensures
        utf8_len(s.push(c)) == utf8_len(s) + char_width(c),
    decreases s.len(),
{
    lemma_scalar_width(c);
    if s.len() == 0 {
        assert(s.push(c).drop_first() =~= Seq::<char>::empty());
        assert(encode_utf8(Seq::<char>::empty()).len() == 0);
    } else {
        assert(s.push(c).drop_first() =~= s.drop_first().push(c));
        assert(s.push(c)[0] == s[0]);
        lemma_utf8_len_push(s.drop_first(), c);
    }
}

proof fn lemma_prefix_len_grows(s: Seq<char>, k: int)
    requires
        0 <= k <= s.len(),
    ensures
        utf8_len(s) >= utf8_len(s.subrange(0, k)),
    decreases s.len() - k,
{
    if k < s.len() {
        assert(s.subrange(0, k + 1) =~= s.subrange(0, k).push(s[k]));
        lemma_utf8_len_push(s.subrange(0, k), s[k]);
        lemma_prefix_len_grows(s, k + 1);
    } else {
        assert(s.subrange(0, k) =~= s);
    }
}

fn width_of(c: char) -> (w: usize)
    ensures
        w == char_width(c),
{
    if c <= '\u{7F}' {
        1
    } else if c <= '\u{7FF}' {
        2
    } else if c <= '\u{FFFF}' {
        3
    } else {
        4
    }
}

/// `s` cut to its longest whole-character prefix of at most `max` bytes;
/// `s` itself when it already fits.
pub open spec fn is_clip_of(r: Seq<char>, s: Seq<char>, max: int) -> bool {
    if utf8_len(s) <= max {
        r == s
    } else {
        exists|k: int| 0 <= k < s.len()
            && utf8_len(#[trigger] s.subrange(0, k)) <= max < utf8_len(s.subrange(0, k + 1))
            && r == s.subrange(0, k)
    }
}

/// Truncate a string to at most `max` bytes without splitting a character.
pub fn clip(s: &mut String, max: usize)
    ensures
        is_clip_of(final(s)@, old(s)@, max as int),
{
    let n = s.as_str().unicode_len();
    let mut k: usize = 0;
    let mut used: usize = 0;
    proof {
        assert(s@.subrange(0, 0) =~= Seq::<char>::empty());
        assert(encode_utf8(Seq::<char>::empty()).len() == 0);
    }
    while k < n && width_of(s.as_str().get_char(k)) <= max - used
        invariant
            n == s@.len(),
            0 <= k <= n,
            used == utf8_len(s@.subrange(0, k as int)),
            used <= max,
        decreases n - k,
    {
        let c = s.as_str().get_char(k);
        proof {
            assert(s@.subrange(0, k + 1) =~= s@.subrange(0, k as int).push(c));
            lemma_utf8_len_push(s@.subrange(0, k as int), c);
        }
        used = used + width_of(c);
        k = k + 1;
    }
    if k == n {
        proof {
            assert(s@.subrange(0, n as int) =~= s@);
        }
        return;
    }
    proof {
        let c = s@[k as int];
        assert(s@.subrange(0, k + 1) =~= s@.subrange(0, k as int).push(c));
        lemma_utf8_len_push(s@.subrange(0, k as int), c);
        // Every longer prefix is longer in bytes too, so the whole string
        // does not fit.
        lemma_prefix_len_grows(s@, k as int + 1);
    }
    let out = String::from_str(s.as_str().substring_char(0, k));
    *s = out;
}

/// Clipped output fits its byte budget and is the output itself or a
/// whole-character prefix of it.
pub proof fn clipped_output_is_bounded(r: Seq<char>, s: Seq<char>, max: int)
    requires
        is_clip_of(r, s, max),
    ensures
        utf8_len(r) <= max,
        r.is_prefix_of(s),
{
    if utf8_len(s) > max {
        let k = choose|k: int| 0 <= k < s.len()
            && utf8_len(#[trigger] s.subrange(0, k)) <= max < utf8_len(s.subrange(0, k + 1))
            && r == s.subrange(0, k);
        assert(r.is_prefix_of(s));
    } else {
        assert(r.is_prefix_of(s)) by {
            assert(s.subrange(0, s.len() as int) =~= s);
        }
    }
}

/// How a command run ended, as the process layer reports it.
pub enum RunEnd {
    /// The command ran to completion.
    Exited {
        success: bool,
        /// The exit code; none when a signal ended the process.
        code: Option<i64>,
        stdout: String,
        stderr: String,
    },
    /// The command could not be started; the reason, as text.
    NotStarted { reason: String },
    /// The command outlived the run time limit and was killed.
    TimedOut { limit_minutes: u64 },
}

/// What a finished run is recorded as.
pub struct Outcome {
    pub status: JobStatus,
    pub exit_code: Option<i64>,
    pub output: String,
}

/// The captured output before clipping: stdout, then, when stderr holds
/// more than whitespace, a `[stderr]` section with it.
pub open spec fn spec_combined_output(stdout: Seq<char>, stderr: Seq<char>) -> Seq<char> {
    if spec_trim(stderr).len() == 0 {
        stdout
    } else {
        stdout + seq!['\n', '[', 's', 't', 'd', 'e', 'r', 'r', ']', '\n'] + stderr
    }
}

pub open spec fn not_started_text() -> Seq<char> {
    "failed to start command: "@
}

pub open spec fn timed_out_text() -> Seq<char> {
    "killed: still running after the "@
}

/// Record a finished run: completed only when the command exited
/// successfully; failed otherwise. The output is clipped to
/// `MAX_OUTPUT_BYTES`.
pub fn job_outcome(end: RunEnd) -> (o: Outcome)
    ensures
        match end {
            RunEnd::Exited { success, code, stdout, stderr } => {
                &&& o.status == (if success { JobStatus::Completed } else { JobStatus::Failed })
                &&& o.exit_code == code
                &&& is_clip_of(o.output@, spec_combined_output(stdout@, stderr@), MAX_OUTPUT_BYTES as int)
            },
            RunEnd::NotStarted { reason } => {
                &&& o.status == JobStatus::Failed
                &&& o.exit_code is None
                &&& is_clip_of(o.output@, not_started_text() + reason@, MAX_OUTPUT_BYTES as int)
            },
            RunEnd::TimedOut { limit_minutes } => {
                &&& o.status == JobStatus::Failed
                &&& o.exit_code is None
                &&& is_clip_of(
                    o.output@,
                    timed_out_text() + crate::text::spec_decimal_nat(limit_minutes as nat) + " min limit"@,
                    MAX_OUTPUT_BYTES as int,
                )
            },
        },
{
    match end {
        RunEnd::Exited { success, code, stdout, stderr } => {
            let mut text = stdout;
            let trimmed = trim(stderr.as_str());
            if trimmed.as_str().unicode_len() > 0 {
                proof {
                    reveal_strlit("\n[stderr]\n");
                    assert("\n[stderr]\n"@ =~= seq!['\n', '[', 's', 't', 'd', 'e', 'r', 'r', ']', '\n']);
                }
                text.append("\n[stderr]\n");
                text.append(stderr.as_str());
            }
            let ghost full = text@;
            clip(&mut text, MAX_OUTPUT_BYTES);
            Outcome {
                status: if success { JobStatus::Completed } else { JobStatus::Failed },
                exit_code: code,
                output: text,
            }
        },
        RunEnd::NotStarted { reason } => {
            let mut text = String::from_str("failed to start command: ");
            text.append(reason.as_str());
            clip(&mut text, MAX_OUTPUT_BYTES);
            Outcome { status: JobStatus::Failed, exit_code: None, output: text }
        },
        RunEnd::TimedOut { limit_minutes } => {
            let mut text = String::from_str("killed: still running after the ");
            crate::text::append_decimal_u64(&mut text, limit_minutes);
            text.append(" min limit");
            clip(&mut text, MAX_OUTPUT_BYTES);
            Outcome { status: JobStatus::Failed, exit_code: None, output: text }
        },
    }
}

/// What a run drawing `watts` cost over `[started, finished]`, and what the
/// same run would have cost had it started the moment it was submitted (the
/// baseline the savings are measured against). Either is unknown without a
/// declared draw or without prices covering it, and the baseline also when
/// its end falls outside the handled instants.
pub fn run_costs(
    prices: &PriceSeries,
    watts: Option<i64>,
    created_at: i64,
    started: i64,
    finished: i64,
) -> (r: (Option<i128>, Option<i128>))
    requires
        prices.wf(),
        valid_time(created_at as int),
        valid_time(started as int),
        valid_time(finished as int),
        watts matches Some(w) ==> valid_watts(w as int),
    ensures
        match watts {
            Some(w) => {
                &&& r.0 == (match spec_interval_cost(prices.points@, started as int, finished as int, w as int) {
                    Some(c) => Some(c as i128),
                    None => None::<i128>,
                })
                &&& r.1 == (if valid_time(created_at + (finished - started)) {
                    match spec_interval_cost(
                        prices.points@,
                        created_at as int,
                        created_at + (finished - started),
                        w as int,
                    ) {
                        Some(c) => Some(c as i128),
                        None => None::<i128>,
                    }
                } else {
                    None::<i128>
                })
            },
            None => r.0 is None && r.1 is None,
        },
{
    match watts {
        Some(w) => {
            let actual = interval_cost(prices, started, finished, w);
            let end = created_at + (finished - started);
            let baseline = if -crate::units::MAX_TIME <= end && end <= crate::units::MAX_TIME {
                interval_cost(prices, created_at, end, w)
            } else {
                None
            };
            (actual, baseline)
        },
        None => (None, None),
    }
}

} // verus!
