//! Turning measured run history into planning estimates.
//!
//! A job's runtime is learned from its own history instead of trusting a
//! one-off guess, biased slightly long on purpose: under-estimating a
//! deadline-bound job's duration risks starting too late, which is worse than
//! reserving a little extra cheap time.

use vstd::prelude::*;
use vstd::string::*;

use crate::text::{
    basename, contains_char, has_char, is_alnum, is_alpha, is_digit, join, spec_basename, spec_join,
    spec_trim, spec_words, split_whitespace, starts_with, starts_with_char, str_eq, trim, views,
};
use crate::units::{MAX_DURATION_MINUTES, MAX_SAMPLE_MINUTES};

verus! {

/// Runs of the exact command needed before an estimate is trusted.
pub const MIN_SAMPLES: usize = 3;

/// Newest measured runs kept per command and per signature.
pub const MAX_SAMPLES: usize = 10;

/// Extra headroom over the mean, in percent (the mean times 1.15).
pub const SAFETY_MARGIN_PERCENT: i64 = 115;

pub open spec fn clamp0(m: int) -> int {
    if m < 0 { 0 } else { m }
}

/// Sum of the samples with negatives counted as zero.
pub open spec fn clean_sum(s: Seq<i64>) -> int
    decreases s.len(),
{
    if s.len() == 0 { 0 } else { clean_sum(s.drop_last()) + clamp0(s.last() as int) }
}

/// Largest sample with negatives counted as zero (0 for no samples).
pub open spec fn clean_max(s: Seq<i64>) -> int
    decreases s.len(),
{
    if s.len() == 0 {
        0
    } else {
        let m = clean_max(s.drop_last());
        let x = clamp0(s.last() as int);
        if x > m { x } else { m }
    }
}

/// Samples no larger in magnitude than the estimator takes.
pub open spec fn samples_in_range(s: Seq<i64>) -> bool {
    forall|i: int| 0 <= i < s.len() ==> -MAX_SAMPLE_MINUTES <= #[trigger] s[i] <= MAX_SAMPLE_MINUTES
}

/// The planning estimate for measured run durations (minutes): nothing until
/// `max(min_samples, 1)` samples exist; otherwise the larger of the mean
/// times 1.15 (rounded up) and the longest run, and at least one minute.
/// Negative samples (clock skew) count as zero.
pub open spec fn spec_estimate_minutes(s: Seq<i64>, min_samples: int) -> Option<int> {
    let need = if min_samples > 1 { min_samples } else { 1 };
    if s.len() < need {
        None
    } else {
        let n = s.len() as int;
        let padded = (SAFETY_MARGIN_PERCENT * clean_sum(s) + 100 * n - 1) / (100 * n);
        let longest = clean_max(s);
        let a = if padded > longest { padded } else { longest };
        Some(if a > 1 { a } else { 1 })
    }
}

proof fn lemma_clean_bounds(s: Seq<i64>)
    requires
        samples_in_range(s),
    ensures
        0 <= clean_sum(s) <= s.len() * MAX_SAMPLE_MINUTES,
        0 <= clean_max(s) <= MAX_SAMPLE_MINUTES,
        clean_max(s) * s.len() >= clean_sum(s),
    decreases s.len(),
{
    if s.len() > 0 {
        let t = s.drop_last();
        assert(samples_in_range(t));
        lemma_clean_bounds(t);
        assert(-MAX_SAMPLE_MINUTES <= s[s.len() - 1] <= MAX_SAMPLE_MINUTES);
        let m = clean_max(t);
        let x = clamp0(s.last() as int);
        let mm = clean_max(s);
        assert(mm >= m && mm >= x);
        assert(mm * t.len() >= m * t.len()) by (nonlinear_arith)
            requires mm >= m, t.len() >= 0;
        assert(mm * s.len() == mm * t.len() + mm) by (nonlinear_arith)
            requires s.len() == t.len() + 1;
    }
}

/// Estimate planning minutes from recent measured run durations.
///
/// Returns `None` until at least `min_samples` samples exist. The estimate is
/// the larger of (mean × 1.15, rounded up) and the longest observed run, so it
/// never under-covers a duration actually seen, and at least one minute.
pub fn estimate_minutes(samples: &[i64], min_samples: usize) -> (r: Option<i64>)
    requires
        samples_in_range(samples@),
    ensures
        r == (match spec_estimate_minutes(samples@, min_samples as int) {
            Some(m) => Some(m as i64),
            None => None::<i64>,
        }),
        r matches Some(m) ==> spec_estimate_minutes(samples@, min_samples as int) == Some(m as int),
        r matches Some(m) ==> 1 <= m <= MAX_DURATION_MINUTES,
{
    let need = if min_samples > 1 { min_samples } else { 1 };
    let n = samples.len();
    if n < need {
        return None;
    }
    let mut sum: i128 = 0;
    let mut longest: i64 = 0;
    let mut i: usize = 0;
    while i < n
        invariant
            n == samples@.len(),
            samples_in_range(samples@),
            0 <= i <= n,
            sum == clean_sum(samples@.subrange(0, i as int)),
            longest == clean_max(samples@.subrange(0, i as int)),
            0 <= sum <= i * MAX_SAMPLE_MINUTES,
            0 <= longest <= MAX_SAMPLE_MINUTES,
        decreases n - i,
    {
        proof {
            assert(samples@.subrange(0, i + 1).drop_last() =~= samples@.subrange(0, i as int));
            assert(-MAX_SAMPLE_MINUTES <= samples@[i as int] <= MAX_SAMPLE_MINUTES);
        }
        let m = samples[i];
        let c: i64 = if m < 0 { 0 } else { m };
        sum = sum + c as i128;
        if c > longest {
            longest = c;
        }
        i = i + 1;
    }
    proof {
        assert(samples@.subrange(0, n as int) =~= samples@);
        lemma_clean_bounds(samples@);
        lemma_padded_bounds(sum as int, n as int, longest as int);
    }
    let den: i128 = 100 * n as i128;
    let padded: i128 = (SAFETY_MARGIN_PERCENT as i128 * sum + den - 1) / den;
    let padded = padded as i64;
    let a = if padded > longest { padded } else { longest };
    Some(if a > 1 { a } else { 1 })
}

proof fn lemma_padded_bounds(sum: int, n: int, longest: int)
    requires
        1 <= n <= 0xffff_ffff_ffff_ffff,
        0 <= sum,
        sum <= longest * n,
        0 <= longest <= MAX_SAMPLE_MINUTES,
    ensures
        0 <= (SAFETY_MARGIN_PERCENT * sum + 100 * n - 1) / (100 * n) <= 2 * MAX_SAMPLE_MINUTES,
        SAFETY_MARGIN_PERCENT * sum + 100 * n - 1 < 0x7fff_ffff_ffff_ffff_ffff_ffff_ffff_ffff,
{
    let d = 100 * n;
    let x = SAFETY_MARGIN_PERCENT * sum + d - 1;
    assert(x <= 115 * longest * n + d) by (nonlinear_arith)
        requires x == 115 * sum + d - 1, sum <= longest * n;
    assert(115 * longest * n + d <= d * (2 * MAX_SAMPLE_MINUTES)) by (nonlinear_arith)
        requires d == 100 * n, n >= 1, 0 <= longest <= MAX_SAMPLE_MINUTES;
    assert(longest * n <= MAX_SAMPLE_MINUTES * n) by (nonlinear_arith)
        requires 0 <= longest <= MAX_SAMPLE_MINUTES, n >= 1;
    assert(MAX_SAMPLE_MINUTES * n <= MAX_SAMPLE_MINUTES * 0xffff_ffff_ffff_ffff) by (nonlinear_arith)
        requires n <= 0xffff_ffff_ffff_ffff;
    vstd::arithmetic::div_mod::lemma_div_is_ordered(x, d * (2 * MAX_SAMPLE_MINUTES), d);
    vstd::arithmetic::div_mod::lemma_div_multiples_vanish(2 * MAX_SAMPLE_MINUTES, d);
    vstd::arithmetic::div_mod::lemma_div_pos_is_pos(x, d);
}

/// A learned-duration estimate and how it was derived.
#[derive(Debug, Clone, Copy, PartialEq, Eq, Structural)]
pub struct Estimate {
    pub minutes: i64,
    pub runs: usize,
    /// True when based on runs of this exact command; false when based on
    /// runs of similar commands (same signature).
    pub exact: bool,
}

// ---------------------------------------------------------------------------
// Shell control operators
// ---------------------------------------------------------------------------

/// Scanner state while looking for unquoted shell control operators.
#[derive(Debug, Clone, Copy, PartialEq, Eq, Structural)]
pub struct ScanState {
    pub in_single: bool,
    pub in_double: bool,
    pub escaped: bool,
    pub prev: char,
    pub found: bool,
}

pub open spec fn scan_start() -> ScanState {
    ScanState { in_single: false, in_double: false, escaped: false, prev: '\0', found: false }
}

/// One character of the scan: quotes toggle, a backslash escapes the next
/// character outside single quotes, and `;` `&` `|` newline (outside both
/// quotes), a backtick or `$(` (outside single quotes) count as operators.
pub open spec fn scan_step(st: ScanState, c: char) -> ScanState {
    if st.found {
        st
    } else if st.escaped {
        ScanState { escaped: false, prev: c, ..st }
    } else if c == '\\' && !st.in_single {
        ScanState { escaped: true, prev: c, ..st }
    } else if c == '\'' && !st.in_double {
        ScanState { in_single: !st.in_single, prev: c, ..st }
    } else if c == '"' && !st.in_single {
        ScanState { in_double: !st.in_double, prev: c, ..st }
    } else if c == '`' && !st.in_single {
        ScanState { found: true, ..st }
    } else if c == '(' && st.prev == '$' && !st.in_single {
        ScanState { found: true, ..st }
    } else if (c == ';' || c == '&' || c == '|' || c == '\n') && !st.in_single && !st.in_double {
        ScanState { found: true, ..st }
    } else {
        ScanState { prev: c, ..st }
    }
}

/// The scanner state after the first `i` characters of `s`.
pub open spec fn scan(s: Seq<char>, i: int) -> ScanState
    decreases i,
{
    if i <= 0 || i > s.len() {
        scan_start()
    } else {
        scan_step(scan(s, i - 1), s[i - 1])
    }
}

/// `s` contains shell control operators outside quotes.
pub open spec fn spec_has_shell_operators(s: Seq<char>) -> bool {
    scan(s, s.len() as int).found
}

/// True when `command` contains shell control operators outside quotes:
/// `;`, `&`, `|`, backticks, `$(`, or a newline. Such a line is really a
/// compound script and must not be reduced to its first word. `$(…)` and
/// backticks count even inside double quotes, where the shell still runs
/// them.
pub fn has_shell_operators(command: &str) -> (b: bool)
    ensures
        b == spec_has_shell_operators(command@),
{
    let n = command.unicode_len();
    let mut in_single = false;
    let mut in_double = false;
    let mut escaped = false;
    let mut prev: char = '\0';
    let mut i: usize = 0;
    while i < n
        invariant
            n == command@.len(),
            0 <= i <= n,
            scan(command@, i as int) == (ScanState { in_single, in_double, escaped, prev, found: false }),
        decreases n - i,
    {
        let c = command.get_char(i);
        if escaped {
            escaped = false;
            prev = c;
        } else if c == '\\' && !in_single {
            escaped = true;
            prev = c;
        } else if c == '\'' && !in_double {
            in_single = !in_single;
            prev = c;
        } else if c == '"' && !in_single {
            in_double = !in_double;
            prev = c;
        } else if c == '`' && !in_single {
            proof { lemma_scan_found_stays(command@, i + 1); }
            return true;
        } else if c == '(' && prev == '$' && !in_single {
            proof { lemma_scan_found_stays(command@, i + 1); }
            return true;
        } else if (c == ';' || c == '&' || c == '|' || c == '\n') && !in_single && !in_double {
            proof { lemma_scan_found_stays(command@, i + 1); }
            return true;
        } else {
            prev = c;
        }
        i = i + 1;
    }
    false
}

/// Once found, an operator stays found.
proof fn lemma_scan_found_stays(s: Seq<char>, i: int)
    requires
        0 <= i <= s.len(),
        scan(s, i).found,
    ensures
        scan(s, s.len() as int).found,
    decreases s.len() - i,
{
    if i < s.len() {
        lemma_scan_found_stays(s, i + 1);
    }
}

/// `s` holds none of the characters that quote or escape for the shell.
pub open spec fn free_of_quoting(s: Seq<char>) -> bool {
    forall|i: int| 0 <= i < s.len() ==> {
        let c = #[trigger] s[i];
        c != '\'' && c != '"' && c != '\\'
    }
}

/// `s` opens a command substitution, `$(`.
pub open spec fn opens_substitution(s: Seq<char>) -> bool {
    exists|i: int| 0 <= i && i + 1 < s.len() && #[trigger] s[i] == '$' && s[i + 1] == '('
}

/// `echo '<s>'`.
pub open spec fn echo_single_quoted(s: Seq<char>) -> Seq<char> {
    seq!['e', 'c', 'h', 'o', ' ', '\''] + s + seq!['\'']
}

/// `echo "<s>"`.
pub open spec fn echo_double_quoted(s: Seq<char>) -> Seq<char> {
    seq!['e', 'c', 'h', 'o', ' ', '"'] + s + seq!['"']
}

/// A backtick or the `(` of a `$(` among the first `j` characters of `s`.
spec fn runs_before(s: Seq<char>, j: int) -> bool {
    exists|i: int| 0 <= i < j && (#[trigger] s[i] == '`' || (i >= 1 && s[i - 1] == '$' && s[i] == '('))
}

proof fn lemma_echo_prefix(x: Seq<char>, q: char)
    requires
        x.len() >= 6,
        x[0] == 'e', x[1] == 'c', x[2] == 'h', x[3] == 'o', x[4] == ' ',
        q == '\'' || q == '"',
        x[5] == q,
    ensures
        scan(x, 6) == (ScanState { in_single: q == '\'', in_double: q == '"', escaped: false, prev: q, found: false }),
{
    assert(scan(x, 0) == scan_start());
    assert(scan(x, 1) == ScanState { prev: 'e', ..scan_start() });
    assert(scan(x, 2) == ScanState { prev: 'c', ..scan_start() });
    assert(scan(x, 3) == ScanState { prev: 'h', ..scan_start() });
    assert(scan(x, 4) == ScanState { prev: 'o', ..scan_start() });
    assert(scan(x, 5) == ScanState { prev: ' ', ..scan_start() });
}

proof fn lemma_scan_inside_single(s: Seq<char>, j: int)
    requires
        free_of_quoting(s),
        0 <= j <= s.len(),
    ensures
        scan(echo_single_quoted(s), 6 + j) == (ScanState {
            in_single: true,
            in_double: false,
            escaped: false,
            prev: if j == 0 { '\'' } else { s[j - 1] },
            found: false,
        }),
    decreases j,
{
    let x = echo_single_quoted(s);
    if j == 0 {
        lemma_echo_prefix(x, '\'');
    } else {
        lemma_scan_inside_single(s, j - 1);
        assert(x[6 + j - 1] == s[j - 1]);
        let c = s[j - 1];
        assert(c != '\'' && c != '"' && c != '\\');
    }
}

proof fn lemma_scan_inside_double(s: Seq<char>, j: int)
    requires
        free_of_quoting(s),
        0 <= j <= s.len(),
    ensures
        !runs_before(s, j) ==> scan(echo_double_quoted(s), 6 + j) == (ScanState {
            in_single: false,
            in_double: true,
            escaped: false,
            prev: if j == 0 { '"' } else { s[j - 1] },
            found: false,
        }),
        runs_before(s, j) ==> scan(echo_double_quoted(s), 6 + j).found,
    decreases j,
{
    let x = echo_double_quoted(s);
    if j == 0 {
        lemma_echo_prefix(x, '"');
    } else {
        lemma_scan_inside_double(s, j - 1);
        assert(x[6 + j - 1] == s[j - 1]);
        let c = s[j - 1];
        assert(c != '\'' && c != '"' && c != '\\');
        if runs_before(s, j - 1) {
            let i = choose|i: int| 0 <= i < j - 1 && (#[trigger] s[i] == '`' || (i >= 1 && s[i - 1] == '$' && s[i] == '('));
            assert(runs_before(s, j)) by { assert(0 <= i < j && (s[i] == '`' || (i >= 1 && s[i - 1] == '$' && s[i] == '('))); }
        } else if c == '`' || (j >= 2 && s[j - 2] == '$' && c == '(') {
            assert(runs_before(s, j)) by { assert(s[j - 1] == c); }
        } else {
            assert forall|i: int| 0 <= i < j implies !(#[trigger] s[i] == '`' || (i >= 1 && s[i - 1] == '$' && s[i] == '(')) by {
                if i < j - 1 {
                    assert(!runs_before(s, j - 1));
                }
            }
        }
    }
}

/// Inside single quotes nothing is an operator; inside double quotes only
/// command substitution counts (a backtick or `$(`), provided the quoted
/// text itself holds no quote or backslash.
pub proof fn quoting_hides_operators(s: Seq<char>)
    requires
        free_of_quoting(s),
    ensures
        !spec_has_shell_operators(echo_single_quoted(s)),
        spec_has_shell_operators(echo_double_quoted(s)) == (s.contains('`') || opens_substitution(s)),
{
    let n = s.len() as int;
    let x = echo_single_quoted(s);
    lemma_scan_inside_single(s, n);
    assert(x.len() == 6 + n + 1);
    assert(x[6 + n] == '\'');
    let y = echo_double_quoted(s);
    lemma_scan_inside_double(s, n);
    assert(y.len() == 6 + n + 1);
    assert(y[6 + n] == '"');
    if runs_before(s, n) {
        let i = choose|i: int| 0 <= i < n && (#[trigger] s[i] == '`' || (i >= 1 && s[i - 1] == '$' && s[i] == '('));
        if s[i] == '`' {
            assert(s.contains('`'));
        } else {
            assert(s[i - 1] == '$');
            assert(opens_substitution(s));
        }
    } else {
        if s.contains('`') {
            let i = choose|i: int| 0 <= i < n && s[i] == '`';
            assert(s[i] == '`');
        }
        if opens_substitution(s) {
            let i = choose|i: int| 0 <= i && i + 1 < n && #[trigger] s[i] == '$' && s[i + 1] == '(';
            assert(s[i + 1] == '(' && s[i + 1 - 1] == '$');
        }
    }
}


// ---------------------------------------------------------------------------
// Token classes
// ---------------------------------------------------------------------------

/// Digits and `.` `:` `,` only, and not empty.
pub open spec fn spec_is_numberish(s: Seq<char>) -> bool {
    s.len() > 0 && forall|i: int| 0 <= i < s.len() ==> {
        let c = #[trigger] s[i];
        is_digit(c) || c == '.' || c == ':' || c == ','
    }
}

/// A subcommand-like word: no leading dash, not a number, at least one
/// ASCII letter, and only ASCII letters, digits, `-` and `_`.
pub open spec fn spec_is_wordish(s: Seq<char>) -> bool {
    &&& !starts_with_char(s, '-')
    &&& !spec_is_numberish(s)
    &&& exists|i: int| 0 <= i < s.len() && is_alpha(#[trigger] s[i])
    &&& forall|i: int| 0 <= i < s.len() ==> {
        let c = #[trigger] s[i];
        is_alnum(c) || c == '-' || c == '_'
    }
}

/// Programs that only wrap the real one.
pub open spec fn spec_is_wrapper(s: Seq<char>) -> bool {
    ||| s == "sudo"@
    ||| s == "doas"@
    ||| s == "nice"@
    ||| s == "ionice"@
    ||| s == "nohup"@
    ||| s == "time"@
    ||| s == "timeout"@
    ||| s == "env"@
    ||| s == "stdbuf"@
}

/// Interpreters, whose script is the real identity.
pub open spec fn spec_is_interpreter(s: Seq<char>) -> bool {
    ||| s == "sh"@
    ||| s == "bash"@
    ||| s == "zsh"@
    ||| s == "fish"@
    ||| s == "python"@
    ||| s == "python3"@
    ||| s == "python2"@
    ||| s == "py"@
    ||| s == "pypy"@
    ||| s == "node"@
    ||| s == "ruby"@
    ||| s == "perl"@
    ||| s == "deno"@
    ||| s == "bun"@
}

/// `b`, ASCII-lower-cased, is longer than `ext` and ends with it.
pub open spec fn ends_with_ext(b: Seq<char>, ext: Seq<char>) -> bool {
    &&& b.len() > ext.len()
    &&& forall|j: int| 0 <= j < ext.len() ==> crate::text::lower(#[trigger] b[b.len() - ext.len() + j]) == ext[j]
}

/// A token whose basename ends in a script extension: the program itself
/// rather than data fed to it.
pub open spec fn spec_is_script_file(s: Seq<char>) -> bool {
    let b = spec_basename(s);
    ||| ends_with_ext(b, ".py"@)
    ||| ends_with_ext(b, ".sh"@)
    ||| ends_with_ext(b, ".bash"@)
    ||| ends_with_ext(b, ".zsh"@)
    ||| ends_with_ext(b, ".js"@)
    ||| ends_with_ext(b, ".mjs"@)
    ||| ends_with_ext(b, ".cjs"@)
    ||| ends_with_ext(b, ".ts"@)
    ||| ends_with_ext(b, ".rb"@)
    ||| ends_with_ext(b, ".pl"@)
    ||| ends_with_ext(b, ".php"@)
    ||| ends_with_ext(b, ".lua"@)
}

fn is_numberish(s: &str) -> (b: bool)
    ensures
        b == spec_is_numberish(s@),
{
    let n = s.unicode_len();
    if n == 0 {
        return false;
    }
    let mut i: usize = 0;
    while i < n
        invariant
            n == s@.len(),
            0 <= i <= n,
            forall|k: int| 0 <= k < i ==> {
                let c = #[trigger] s@[k];
                is_digit(c) || c == '.' || c == ':' || c == ','
            },
        decreases n - i,
    {
        let c = s.get_char(i);
        if !(('0' <= c && c <= '9') || c == '.' || c == ':' || c == ',') {
            return false;
        }
        i = i + 1;
    }
    true
}

fn is_wordish(s: &str) -> (b: bool)
    ensures
        b == spec_is_wordish(s@),
{
    if starts_with(s, '-') || is_numberish(s) {
        return false;
    }
    let n = s.unicode_len();
    let mut any_alpha = false;
    let mut i: usize = 0;
    while i < n
        invariant
            n == s@.len(),
            0 <= i <= n,
            any_alpha == exists|k: int| 0 <= k < i && is_alpha(#[trigger] s@[k]),
            forall|k: int| 0 <= k < i ==> {
                let c = #[trigger] s@[k];
                is_alnum(c) || c == '-' || c == '_'
            },
        decreases n - i,
    {
        let c = s.get_char(i);
        let alpha = ('a' <= c && c <= 'z') || ('A' <= c && c <= 'Z');
        let digit = '0' <= c && c <= '9';
        if !(alpha || digit || c == '-' || c == '_') {
            return false;
        }
        if alpha {
            any_alpha = true;
        }
        i = i + 1;
    }
    any_alpha
}

fn is_wrapper(s: &str) -> (b: bool)
    ensures
        b == spec_is_wrapper(s@),
{
    str_eq(s, "sudo") || str_eq(s, "doas") || str_eq(s, "nice") || str_eq(s, "ionice")
        || str_eq(s, "nohup") || str_eq(s, "time") || str_eq(s, "timeout") || str_eq(s, "env")
        || str_eq(s, "stdbuf")
}

fn is_interpreter(s: &str) -> (b: bool)
    ensures
        b == spec_is_interpreter(s@),
{
    str_eq(s, "sh") || str_eq(s, "bash") || str_eq(s, "zsh") || str_eq(s, "fish")
        || str_eq(s, "python") || str_eq(s, "python3") || str_eq(s, "python2") || str_eq(s, "py")
        || str_eq(s, "pypy") || str_eq(s, "node") || str_eq(s, "ruby") || str_eq(s, "perl")
        || str_eq(s, "deno") || str_eq(s, "bun")
}

fn has_ext(b: &str, ext: &str) -> (r: bool)
    ensures
        r == ends_with_ext(b@, ext@),
{
    let n = b.unicode_len();
    let m = ext.unicode_len();
    if n <= m {
        return false;
    }
    let mut j: usize = 0;
    while j < m
        invariant
            n == b@.len(),
            m == ext@.len(),
            n > m,
            0 <= j <= m,
            forall|k: int| 0 <= k < j ==> crate::text::lower(#[trigger] b@[n - m + k]) == ext@[k],
        decreases m - j,
    {
        let c = b.get_char(n - m + j);
        let lc = if 'A' <= c && c <= 'Z' { ((c as u32) + 32) as u8 as char } else { c };
        proof {
            if 'A' <= c && c <= 'Z' {
                let v = (c as u32) + 32;
                assert(97 <= v <= 122);
                assert(v as u8 == v);
                assert(lc == crate::text::lower(c));
            }
        }
        if lc != ext.get_char(j) {
            return false;
        }
        j = j + 1;
    }
    true
}

fn is_script_file(s: &str) -> (r: bool)
    ensures
        r == spec_is_script_file(s@),
{
    let b = basename(s);
    let b = b.as_str();
    has_ext(b, ".py") || has_ext(b, ".sh") || has_ext(b, ".bash") || has_ext(b, ".zsh")
        || has_ext(b, ".js") || has_ext(b, ".mjs") || has_ext(b, ".cjs") || has_ext(b, ".ts")
        || has_ext(b, ".rb") || has_ext(b, ".pl") || has_ext(b, ".php") || has_ext(b, ".lua")
}

// ---------------------------------------------------------------------------
// Command signatures
// ---------------------------------------------------------------------------

/// A token that cannot be the real program: a flag, a number, an environment
/// assignment, or a wrapper such as `sudo`.
pub open spec fn skippable(t: Seq<char>) -> bool {
    ||| starts_with_char(t, '-')
    ||| spec_is_numberish(t)
    ||| has_char(t, '=')
    ||| spec_is_wrapper(spec_basename(t))
}

/// Index of the first token from `i` on that can be the real program (the
/// token count when none can).
pub open spec fn program_index(toks: Seq<Seq<char>>, i: int) -> int
    decreases toks.len() - i,
{
    if i < 0 || i >= toks.len() {
        toks.len() as int
    } else if skippable(toks[i]) {
        program_index(toks, i + 1)
    } else {
        i
    }
}

/// Index of the first token from `i` on that is not a flag.
pub open spec fn first_non_flag(toks: Seq<Seq<char>>, i: int) -> int
    decreases toks.len() - i,
{
    if i < 0 || i >= toks.len() {
        toks.len() as int
    } else if starts_with_char(toks[i], '-') {
        first_non_flag(toks, i + 1)
    } else {
        i
    }
}

/// Extend `sig` with the subcommand-like words from token `i` on: stop at the
/// first flag, path or value, or after three words; a script-file argument
/// is identity and ends the signature.
pub open spec fn collect_words(toks: Seq<Seq<char>>, i: int, sig: Seq<Seq<char>>) -> Seq<Seq<char>>
    decreases toks.len() - i,
{
    if i < 0 || i >= toks.len() {
        sig
    } else if spec_is_script_file(toks[i]) {
        sig.push(spec_basename(toks[i]))
    } else if sig.len() >= 3 || !spec_is_wordish(toks[i]) {
        sig
    } else {
        collect_words(toks, i + 1, sig.push(toks[i]))
    }
}

/// The signature of a command already split into tokens: the program's
/// basename, then for interpreters the script's basename, and for other
/// programs their subcommand words. With no program at all, the trimmed
/// command itself.
pub open spec fn spec_signature_from_tokens(command: Seq<char>, toks: Seq<Seq<char>>) -> Seq<char> {
    let p = program_index(toks, 0);
    if p >= toks.len() {
        spec_trim(command)
    } else {
        let prog = spec_basename(toks[p]);
        if spec_is_interpreter(prog) {
            let q = first_non_flag(toks, p + 1);
            if q < toks.len() {
                spec_join(seq![prog, spec_basename(toks[q])], " "@)
            } else {
                spec_join(seq![prog], " "@)
            }
        } else {
            spec_join(collect_words(toks, p + 1, seq![prog]), " "@)
        }
    }
}

/// The tokens POSIX-shell splitting gives for a command line, or `None` when
/// it does not tokenize (unbalanced quotes), as the `shlex` crate decides.
pub uninterp spec fn shlex_split(s: Seq<char>) -> Option<Seq<Seq<char>>>;

/// Shell-style tokenization of `command`.
///
/// Trusted: calls `shlex::split`. The contract claims only that the result
/// is what `shlex::split` gives for the command's characters (named
/// `shlex_split`); what that tokenization is (quotes and escapes handled
/// like a POSIX shell) is not stated.
#[verifier::external_body]
fn shlex_tokens(command: &str) -> (r: Option<Vec<String>>)
    ensures
        match r {
            Some(v) => shlex_split(command@) == Some(views(v@)),
            None => shlex_split(command@) is None,
        },
{
    shlex::split(command)
}

/// The tokens a command is reduced from: shell-style tokens, or whitespace
/// splitting when the command does not tokenize.
pub open spec fn command_tokens(s: Seq<char>) -> Seq<Seq<char>> {
    match shlex_split(s) {
        Some(t) => t,
        None => spec_words(s),
    }
}

/// The signature of a command line: compound lines (with shell control
/// operators) keep their whole trimmed text; others are reduced to the part
/// that predicts their runtime.
pub open spec fn spec_command_signature(s: Seq<char>) -> Seq<char> {
    if spec_has_shell_operators(s) {
        spec_trim(s)
    } else {
        spec_signature_from_tokens(s, command_tokens(s))
    }
}

fn is_skippable(t: &str) -> (b: bool)
    ensures
        b == skippable(t@),
{
    if starts_with(t, '-') || is_numberish(t) || contains_char(t, '=') {
        return true;
    }
    let b = basename(t);
    is_wrapper(b.as_str())
}

/// Reduce a command, already split into `tokens`, to the part that predicts
/// its runtime: the program and its subcommand words, not argument values.
/// Environment assignments, flags, numbers and wrappers (`sudo`, `nice`,
/// `timeout`, …) are skipped to find the program; for interpreters the
/// script is the identity.
pub fn signature_from_tokens(command: &str, tokens: &Vec<String>) -> (r: String)
    ensures
        r@ == spec_signature_from_tokens(command@, views(tokens@)),
{
    let ghost toks = views(tokens@);
    let n = tokens.len();
    let mut i: usize = 0;
    while i < n && is_skippable(tokens[i].as_str())
        invariant
            n == tokens@.len(),
            toks == views(tokens@),
            0 <= i <= n,
            program_index(toks, 0) == program_index(toks, i as int),
        decreases n - i,
    {
        proof {
            assert(toks[i as int] == tokens@[i as int]@);
        }
        i = i + 1;
    }
    proof {
        if i < n {
            assert(toks[i as int] == tokens@[i as int]@);
        }
    }
    if i == n {
        return trim(command);
    }
    let program = basename(tokens[i].as_str());
    let mut sig: Vec<String> = Vec::new();
    let ghost prog = program@;
    sig.push(program);
    let mut j = i + 1;
    if is_interpreter(sig[0].as_str()) {
        while j < n && starts_with(tokens[j].as_str(), '-')
            invariant
                n == tokens@.len(),
                toks == views(tokens@),
                i < j <= n,
                first_non_flag(toks, (i + 1) as int) == first_non_flag(toks, j as int),
            decreases n - j,
        {
            proof {
                assert(toks[j as int] == tokens@[j as int]@);
            }
            j = j + 1;
        }
        if j < n {
            proof {
                assert(toks[j as int] == tokens@[j as int]@);
            }
            let b = basename(tokens[j].as_str());
            sig.push(b);
            proof {
                assert(views(sig@) =~= seq![prog, spec_basename(toks[j as int])]);
            }
        } else {
            proof {
                assert(views(sig@) =~= seq![prog]);
            }
        }
        return join(&sig, " ");
    }
    proof {
        assert(views(sig@) =~= seq![prog]);
    }
    let ghost target = collect_words(toks, (i + 1) as int, seq![prog]);
    let mut done = false;
    while j < n && !done
        invariant
            n == tokens@.len(),
            toks == views(tokens@),
            i < j <= n,
            1 <= sig@.len(),
            !done ==> target == collect_words(toks, j as int, views(sig@)),
            done ==> target == views(sig@),
        decreases n - j + (if done { 0int } else { 1int }),
    {
        proof {
            assert(toks[j as int] == tokens@[j as int]@);
        }
        let t = tokens[j].as_str();
        if is_script_file(t) {
            let b = basename(t);
            let ghost before = views(sig@);
            sig.push(b);
            proof {
                assert(views(sig@) =~= before.push(spec_basename(toks[j as int])));
            }
            done = true;
        } else if sig.len() >= 3 || !is_wordish(t) {
            done = true;
        } else {
            let ghost before = views(sig@);
            sig.push(tokens[j].clone());
            proof {
                assert(views(sig@) =~= before.push(toks[j as int]));
            }
            j = j + 1;
        }
    }
    proof {
        if !done {
            assert(collect_words(toks, j as int, views(sig@)) == views(sig@));
        }
    }
    join(&sig, " ")
}

/// Reduce a shell command to the part that predicts its runtime: `echo 212`
/// and `echo 1` are the same command for time and cost purposes; so are two
/// `ffmpeg -i <file>` transcodes. Compound commands (with unquoted shell
/// control operators) keep their whole line, so `echo ok && train.sh` cannot
/// borrow the history of `echo`. Tokenization is POSIX-shell style, falling
/// back to whitespace splitting when the quotes do not balance.
pub fn command_signature(command: &str) -> (r: String)
    ensures
        r@ == spec_command_signature(command@),
{
    if has_shell_operators(command) {
        return trim(command);
    }
    let tokens = match shlex_tokens(command) {
        Some(t) => t,
        None => split_whitespace(command),
    };
    signature_from_tokens(command, &tokens)
}

// ---------------------------------------------------------------------------
// The learner
// ---------------------------------------------------------------------------

/// The key a run is filed under: the command itself, or its signature.
pub open spec fn run_key(command: Seq<char>, by_signature: bool) -> Seq<char> {
    if by_signature { spec_command_signature(command) } else { command }
}

/// The samples kept for `key`: the minutes of the first `MAX_SAMPLES` runs
/// (most recent first) filed under it.
pub open spec fn kept_samples(runs: Seq<(Seq<char>, i64)>, key: Seq<char>, by_signature: bool) -> Seq<i64>
    decreases runs.len(),
{
    if runs.len() == 0 {
        Seq::empty()
    } else {
        let kept = kept_samples(runs.drop_last(), key, by_signature);
        let (c, m) = runs.last();
        if run_key(c, by_signature) == key && kept.len() < MAX_SAMPLES {
            kept.push(m)
        } else {
            kept
        }
    }
}

/// What `DurationLearner::estimate` answers for `command` given the run
/// history: the estimate from the exact command's own runs when there are
/// enough, otherwise from the runs of same-signature commands.
pub open spec fn spec_learned_estimate(runs: Seq<(Seq<char>, i64)>, command: Seq<char>) -> Option<Estimate> {
    let exact = kept_samples(runs, command, false);
    match spec_estimate_minutes(exact, MIN_SAMPLES as int) {
        Some(m) => Some(Estimate { minutes: m as i64, runs: exact.len() as usize, exact: true }),
        None => {
            let similar = kept_samples(runs, spec_command_signature(command), true);
            match spec_estimate_minutes(similar, MIN_SAMPLES as int) {
                Some(m) => Some(Estimate { minutes: m as i64, runs: similar.len() as usize, exact: false }),
                None => None,
            }
        },
    }
}

/// Every run's minutes are within what the estimator takes.
pub open spec fn runs_in_range(runs: Seq<(Seq<char>, i64)>) -> bool {
    forall|i: int| 0 <= i < runs.len() ==> -MAX_SAMPLE_MINUTES <= (#[trigger] runs[i]).1 <= MAX_SAMPLE_MINUTES
}

/// A table of samples per key agrees with the runs: keys distinct, each
/// key's samples are those kept for it, and keys without an entry have none.
pub open spec fn table_ok(keys: Seq<String>, samples: Seq<Vec<i64>>, runs: Seq<(Seq<char>, i64)>, by_signature: bool) -> bool {
    &&& keys.len() == samples.len()
    &&& forall|a: int, b: int| 0 <= a < b < keys.len() ==> keys[a]@ != keys[b]@
    &&& forall|a: int| 0 <= a < keys.len() ==> (#[trigger] samples[a])@ == kept_samples(runs, keys[a]@, by_signature)
    &&& forall|key: Seq<char>| (forall|a: int| 0 <= a < keys.len() ==> keys[a]@ != key)
        ==> (#[trigger] kept_samples(runs, key, by_signature)).len() == 0
}

proof fn lemma_kept_in_range(runs: Seq<(Seq<char>, i64)>, key: Seq<char>, by_signature: bool)
    requires
        runs_in_range(runs),
    ensures
        samples_in_range(kept_samples(runs, key, by_signature)),
        kept_samples(runs, key, by_signature).len() <= MAX_SAMPLES,
    decreases runs.len(),
{
    if runs.len() > 0 {
        assert(runs_in_range(runs.drop_last()));
        lemma_kept_in_range(runs.drop_last(), key, by_signature);
        assert(-MAX_SAMPLE_MINUTES <= runs[runs.len() - 1].1 <= MAX_SAMPLE_MINUTES);
    }
}

/// Position of `key` among `keys`.
fn find_key(keys: &Vec<String>, key: &str) -> (r: Option<usize>)
    ensures
        match r {
            Some(i) => i < keys@.len() && keys@[i as int]@ == key@,
            None => forall|a: int| 0 <= a < keys@.len() ==> keys@[a]@ != key@,
        },
{
    let n = keys.len();
    let mut i: usize = 0;
    while i < n
        invariant
            n == keys@.len(),
            0 <= i <= n,
            forall|a: int| 0 <= a < i ==> keys@[a]@ != key@,
        decreases n - i,
    {
        if str_eq(keys[i].as_str(), key) {
            return Some(i);
        }
        i = i + 1;
    }
    None
}

/// File one more run's minutes under `key` in a table.
fn file_sample(
    keys: &mut Vec<String>,
    samples: &mut Vec<Vec<i64>>,
    key: String,
    minutes: i64,
    Ghost(runs): Ghost<Seq<(Seq<char>, i64)>>,
    Ghost(command): Ghost<Seq<char>>,
    Ghost(by_signature): Ghost<bool>,
)
    requires
        table_ok(old(keys)@, old(samples)@, runs, by_signature),
        key@ == run_key(command, by_signature),
        runs_in_range(runs),
    ensures
        table_ok(final(keys)@, final(samples)@, runs.push((command, minutes)), by_signature),
{
    let ghost new_runs = runs.push((command, minutes));
    proof {
        assert(new_runs.drop_last() =~= runs);
        assert forall|k: Seq<char>| #[trigger] kept_samples(new_runs, k, by_signature) == (if k == key@
            && kept_samples(runs, k, by_signature).len() < MAX_SAMPLES {
            kept_samples(runs, k, by_signature).push(minutes)
        } else {
            kept_samples(runs, k, by_signature)
        }) by {
            assert(new_runs.last() == (command, minutes));
        }
    }
    match find_key(keys, key.as_str()) {
        Some(idx) => {
            let mut v = samples.remove(idx);
            if v.len() < MAX_SAMPLES {
                v.push(minutes);
            }
            samples.insert(idx, v);
            proof {
                assert forall|a: int| 0 <= a < keys@.len() implies (#[trigger] samples@[a])@ == kept_samples(new_runs, keys@[a]@, by_signature) by {
                    if a != idx {
                        assert(samples@[a] == old(samples)@[a]);
                        assert(keys@[a]@ != key@);
                    }
                }
                assert forall|k: Seq<char>| (forall|a: int| 0 <= a < keys@.len() ==> keys@[a]@ != k)
                    implies (#[trigger] kept_samples(new_runs, k, by_signature)).len() == 0 by {
                    assert(keys@[idx as int]@ != k);
                }
            }
        },
        None => {
            let ghost old_keys = keys@;
            let mut v: Vec<i64> = Vec::new();
            v.push(minutes);
            keys.push(key);
            samples.push(v);
            proof {
                assert(kept_samples(runs, key@, by_signature).len() == 0);
                assert forall|a: int, b: int| 0 <= a < b < keys@.len() implies keys@[a]@ != keys@[b]@ by {
                    if b == old_keys.len() {
                        assert(keys@[a] == old_keys[a]);
                    }
                }
                assert forall|a: int| 0 <= a < keys@.len() implies (#[trigger] samples@[a])@ == kept_samples(new_runs, keys@[a]@, by_signature) by {
                    if a < old_keys.len() {
                        assert(samples@[a] == old(samples)@[a]);
                        assert(keys@[a] == old_keys[a]);
                        assert(old_keys[a]@ != key@);
                    } else {
                        assert(samples@[a]@ =~= Seq::<i64>::empty().push(minutes));
                    }
                }
                assert forall|k: Seq<char>| (forall|a: int| 0 <= a < keys@.len() ==> keys@[a]@ != k)
                    implies (#[trigger] kept_samples(new_runs, k, by_signature)).len() == 0 by {
                    assert(keys@[old_keys.len() as int]@ != k);
                    assert forall|a: int| 0 <= a < old_keys.len() implies old_keys[a]@ != k by {
                        assert(keys@[a] == old_keys[a]);
                    }
                }
            }
        },
    }
}

/// The samples a table holds for `key` (none when it has no entry).
fn table_samples<'a>(keys: &Vec<String>, samples: &'a Vec<Vec<i64>>, key: &str) -> (r: Option<&'a Vec<i64>>)
    requires
        keys@.len() == samples@.len(),
    ensures
        match r {
            Some(v) => exists|a: int| 0 <= a < keys@.len() && keys@[a]@ == key@ && samples@[a] == *v,
            None => forall|a: int| 0 <= a < keys@.len() ==> keys@[a]@ != key@,
        },
{
    match find_key(keys, key) {
        Some(i) => Some(&samples[i]),
        None => None,
    }
}

/// Run history indexed for estimation: by exact command, and by command
/// signature as a fallback when the exact command hasn't run often enough.
pub struct DurationLearner {
    exact_keys: Vec<String>,
    exact_samples: Vec<Vec<i64>>,
    sig_keys: Vec<String>,
    sig_samples: Vec<Vec<i64>>,
    runs: Ghost<Seq<(Seq<char>, i64)>>,
}

impl DurationLearner {
    /// The completed runs the learner was built from, most recent first.
    pub closed spec fn history(&self) -> Seq<(Seq<char>, i64)> {
        self.runs@
    }

    #[verifier::type_invariant]
    spec fn inv(&self) -> bool {
        &&& runs_in_range(self.runs@)
        &&& table_ok(self.exact_keys@, self.exact_samples@, self.runs@, false)
        &&& table_ok(self.sig_keys@, self.sig_samples@, self.runs@, true)
    }

    /// Build from completed runs as `(command, measured minutes)`, most
    /// recent first. Only the newest runs per command and per signature are
    /// kept.
    pub fn from_history(runs: Vec<(String, i64)>) -> (l: DurationLearner)
        requires
            forall|i: int| 0 <= i < runs@.len() ==> -MAX_SAMPLE_MINUTES <= (#[trigger] runs@[i]).1 <= MAX_SAMPLE_MINUTES,
        ensures
            l.history() == runs@.map_values(|r: (String, i64)| (r.0@, r.1)),
    {
        let ghost all = runs@.map_values(|r: (String, i64)| (r.0@, r.1));
        let n = runs.len();
        let mut exact_keys: Vec<String> = Vec::new();
        let mut exact_samples: Vec<Vec<i64>> = Vec::new();
        let mut sig_keys: Vec<String> = Vec::new();
        let mut sig_samples: Vec<Vec<i64>> = Vec::new();
        let mut i: usize = 0;
        proof {
            assert(all.subrange(0, 0) =~= Seq::<(Seq<char>, i64)>::empty());
        }
        while i < n
            invariant
                n == runs@.len(),
                all == runs@.map_values(|r: (String, i64)| (r.0@, r.1)),
                forall|i: int| 0 <= i < runs@.len() ==> -MAX_SAMPLE_MINUTES <= (#[trigger] runs@[i]).1 <= MAX_SAMPLE_MINUTES,
                0 <= i <= n,
                table_ok(exact_keys@, exact_samples@, all.subrange(0, i as int), false),
                table_ok(sig_keys@, sig_samples@, all.subrange(0, i as int), true),
            decreases n - i,
        {
            let ghost prefix = all.subrange(0, i as int);
            proof {
                assert(runs_in_range(prefix)) by {
                    assert forall|k: int| 0 <= k < prefix.len() implies -MAX_SAMPLE_MINUTES <= (#[trigger] prefix[k]).1 <= MAX_SAMPLE_MINUTES by {
                        assert(prefix[k] == all[k]);
                        assert(all[k].1 == runs@[k].1);
                    }
                }
                assert(all.subrange(0, i + 1) =~= prefix.push(all[i as int]));
                assert(all[i as int] == (runs@[i as int].0@, runs@[i as int].1));
            }
            let command = runs[i].0.clone();
            let minutes = runs[i].1;
            let sig = command_signature(command.as_str());
            file_sample(&mut sig_keys, &mut sig_samples, sig, minutes, Ghost(prefix), Ghost(command@), Ghost(true));
            file_sample(&mut exact_keys, &mut exact_samples, command, minutes, Ghost(prefix), Ghost(command@), Ghost(false));
            i = i + 1;
        }
        proof {
            assert(all.subrange(0, n as int) =~= all);
            assert(runs_in_range(all)) by {
                assert forall|k: int| 0 <= k < all.len() implies -MAX_SAMPLE_MINUTES <= (#[trigger] all[k]).1 <= MAX_SAMPLE_MINUTES by {
                    assert(all[k].1 == runs@[k].1);
                }
            }
        }
        DurationLearner { exact_keys, exact_samples, sig_keys, sig_samples, runs: Ghost(all) }
    }

    /// Estimate for `command`: its own history when there's enough of it,
    /// otherwise the pooled history of same-signature commands.
    pub fn estimate(&self, command: &str) -> (r: Option<Estimate>)
        ensures
            r == spec_learned_estimate(self.history(), command@),
            r matches Some(e) ==> 1 <= e.minutes <= MAX_DURATION_MINUTES,
    {
        proof {
            use_type_invariant(self);
            lemma_kept_in_range(self.runs@, command@, false);
        }
        let exact = table_samples(&self.exact_keys, &self.exact_samples, command);
        let exact_est = match exact {
            Some(samples) => {
                let est = estimate_minutes(samples.as_slice(), MIN_SAMPLES);
                match est {
                    Some(minutes) => Some(Estimate { minutes, runs: samples.len(), exact: true }),
                    None => None,
                }
            },
            None => {
                proof {
                    assert(kept_samples(self.runs@, command@, false).len() == 0);
                }
                None
            },
        };
        if exact_est.is_some() {
            return exact_est;
        }
        let sig = command_signature(command);
        proof {
            lemma_kept_in_range(self.runs@, sig@, true);
        }
        match table_samples(&self.sig_keys, &self.sig_samples, sig.as_str()) {
            Some(samples) => {
                match estimate_minutes(samples.as_slice(), MIN_SAMPLES) {
                    Some(minutes) => Some(Estimate { minutes, runs: samples.len(), exact: false }),
                    None => None,
                }
            },
            None => {
                proof {
                    assert(kept_samples(self.runs@, sig@, true).len() == 0);
                }
                None
            },
        }
    }
}

// ---------------------------------------------------------------------------
// What the estimates promise
// ---------------------------------------------------------------------------

proof fn lemma_clean_max_covers(s: Seq<i64>, i: int)
    requires
        0 <= i < s.len(),
    ensures
        clean_max(s) >= s[i],
        clean_max(s) >= 0,
    decreases s.len(),
{
    if i < s.len() - 1 {
        lemma_clean_max_covers(s.drop_last(), i);
    } else if s.len() > 1 {
        lemma_clean_max_covers(s.drop_last(), 0);
    }
}

/// An estimate never under-covers a run actually seen: it is at least every
/// sample, at least one minute, and at least the mean padded by the safety
/// margin.
pub proof fn estimate_covers_every_run(s: Seq<i64>, min_samples: int)
    requires
        spec_estimate_minutes(s, min_samples) is Some,
    ensures
        forall|i: int| 0 <= i < s.len() ==> spec_estimate_minutes(s, min_samples)->0 >= #[trigger] s[i],
        spec_estimate_minutes(s, min_samples)->0 >= 1,
        spec_estimate_minutes(s, min_samples)->0 * (100 * s.len()) >= SAFETY_MARGIN_PERCENT * clean_sum(s),
{
    let n = s.len() as int;
    assert forall|i: int| 0 <= i < s.len() implies spec_estimate_minutes(s, min_samples)->0 >= #[trigger] s[i] by {
        lemma_clean_max_covers(s, i);
    }
    let d = 100 * n;
    let x = SAFETY_MARGIN_PERCENT * clean_sum(s) + d - 1;
    let padded = x / d;
    vstd::arithmetic::div_mod::lemma_fundamental_div_mod(x, d);
    assert(padded * d >= SAFETY_MARGIN_PERCENT * clean_sum(s)) by (nonlinear_arith)
        requires x == d * padded + x % d, 0 <= x % d < d, x == SAFETY_MARGIN_PERCENT * clean_sum(s) + d - 1, d > 0;
    let e = spec_estimate_minutes(s, min_samples)->0;
    assert(e >= padded);
    assert(e * d >= padded * d) by (nonlinear_arith)
        requires e >= padded, d > 0;
}

/// With enough runs of the exact command, its own history decides: the
/// estimate is from those runs and says so.
pub proof fn exact_history_wins(runs: Seq<(Seq<char>, i64)>, command: Seq<char>)
    requires
        runs_in_range(runs),
        kept_samples(runs, command, false).len() >= MIN_SAMPLES,
    ensures
        spec_learned_estimate(runs, command) matches Some(e)
            && e.exact
            && e.runs == kept_samples(runs, command, false).len()
            && e.minutes == spec_estimate_minutes(kept_samples(runs, command, false), MIN_SAMPLES as int)->0,
{
    let s = kept_samples(runs, command, false);
    lemma_kept_in_range(runs, command, false);
    lemma_clean_bounds(s);
    lemma_padded_bounds(clean_sum(s), s.len() as int, clean_max(s));
}

/// A compound command line (with shell control operators) is only ever
/// matched with itself: its signature is its whole trimmed text.
pub proof fn compound_commands_keep_their_line(command: Seq<char>)
    requires
        spec_has_shell_operators(command),
    ensures
        spec_command_signature(command) == spec_trim(command),
{
}

/// A learned estimate always rests on at least three measured runs, and its
/// run count is the number of runs it was learned from: the exact command's
/// kept runs when it is exact, else the kept runs of commands sharing its
/// signature.
pub proof fn estimates_rest_on_three_runs(runs: Seq<(Seq<char>, i64)>, command: Seq<char>)
    ensures
        spec_learned_estimate(runs, command) matches Some(e) ==> {
            &&& e.runs >= 3
            &&& e.exact ==> e.runs == kept_samples(runs, command, false).len()
            &&& !e.exact ==> e.runs == kept_samples(runs, spec_command_signature(command), true).len()
        },
{
    lemma_kept_at_most_max(runs, command, false);
    lemma_kept_at_most_max(runs, spec_command_signature(command), true);
}

proof fn lemma_kept_at_most_max(runs: Seq<(Seq<char>, i64)>, key: Seq<char>, by_signature: bool)
    ensures
        kept_samples(runs, key, by_signature).len() <= MAX_SAMPLES,
    decreases runs.len(),
{
    if runs.len() > 0 {
        lemma_kept_at_most_max(runs.drop_last(), key, by_signature);
    }
}

} // verus!
