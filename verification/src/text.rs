//! Character-level string helpers with their meaning stated over `Seq<char>`.

use vstd::prelude::*;
use vstd::string::*;

verus! {

/// Unicode `White_Space`, as `char::is_whitespace` defines it.
pub open spec fn is_ws(c: char) -> bool {
    ||| c == ' '
    ||| ('\t' <= c && c <= '\r')
    ||| c == '\u{85}'
    ||| c == '\u{A0}'
    ||| c == '\u{1680}'
    ||| ('\u{2000}' <= c && c <= '\u{200A}')
    ||| c == '\u{2028}'
    ||| c == '\u{2029}'
    ||| c == '\u{202F}'
    ||| c == '\u{205F}'
    ||| c == '\u{3000}'
}

pub fn is_whitespace(c: char) -> (b: bool)
    ensures
        b == is_ws(c),
{
    c == ' ' || ('\t' <= c && c <= '\r') || c == '\u{85}' || c == '\u{A0}' || c == '\u{1680}'
        || ('\u{2000}' <= c && c <= '\u{200A}') || c == '\u{2028}' || c == '\u{2029}'
        || c == '\u{202F}' || c == '\u{205F}' || c == '\u{3000}'
}

pub open spec fn is_digit(c: char) -> bool {
    '0' <= c && c <= '9'
}

pub open spec fn is_alpha(c: char) -> bool {
    ('a' <= c && c <= 'z') || ('A' <= c && c <= 'Z')
}

pub open spec fn is_alnum(c: char) -> bool {
    is_digit(c) || is_alpha(c)
}

/// ASCII lower-casing: `A`–`Z` map to `a`–`z`, everything else is kept.
pub open spec fn lower(c: char) -> char {
    if 'A' <= c && c <= 'Z' {
        ((c as u32) + 32) as char
    } else {
        c
    }
}

/// Whether two strings hold the same characters.
pub fn str_eq(a: &str, b: &str) -> (r: bool)
    ensures
        r == (a@ == b@),
{
    let n = a.unicode_len();
    if n != b.unicode_len() {
        return false;
    }
    let mut i: usize = 0;
    while i < n
        invariant
            n == a@.len(),
            n == b@.len(),
            0 <= i <= n,
            forall|k: int| 0 <= k < i ==> a@[k] == b@[k],
        decreases n - i,
    {
        if a.get_char(i) != b.get_char(i) {
            return false;
        }
        i = i + 1;
    }
    assert(a@ =~= b@);
    true
}

/// Index of the first non-whitespace character at or after `i` (the length
/// when there is none).
pub open spec fn first_non_ws(s: Seq<char>, i: int) -> int
    decreases s.len() - i,
{
    if i >= s.len() || i < 0 {
        s.len() as int
    } else if is_ws(s[i]) {
        first_non_ws(s, i + 1)
    } else {
        i
    }
}

/// End of the text before the trailing whitespace of `s[..j]`.
pub open spec fn trimmed_end(s: Seq<char>, j: int) -> int
    decreases j,
{
    if j <= 0 || j > s.len() {
        0
    } else if is_ws(s[j - 1]) {
        trimmed_end(s, j - 1)
    } else {
        j
    }
}

/// `s` without leading and trailing whitespace.
pub open spec fn spec_trim(s: Seq<char>) -> Seq<char> {
    let a = first_non_ws(s, 0);
    let b = trimmed_end(s, s.len() as int);
    if a < b {
        s.subrange(a, b)
    } else {
        Seq::empty()
    }
}

/// `s` without leading and trailing whitespace.
pub fn trim(s: &str) -> (r: String)
    ensures
        r@ == spec_trim(s@),
{
    let n = s.unicode_len();
    let mut a: usize = 0;
    while a < n && is_whitespace(s.get_char(a))
        invariant
            n == s@.len(),
            0 <= a <= n,
            first_non_ws(s@, 0) == first_non_ws(s@, a as int),
        decreases n - a,
    {
        a = a + 1;
    }
    let mut b: usize = n;
    while b > 0 && is_whitespace(s.get_char(b - 1))
        invariant
            n == s@.len(),
            0 <= b <= n,
            trimmed_end(s@, n as int) == trimmed_end(s@, b as int),
        decreases b,
    {
        b = b - 1;
    }
    if a < b {
        String::from_str(s.substring_char(a, b))
    } else {
        String::new()
    }
}

/// Whether `s` holds only whitespace (or nothing).
pub open spec fn spec_is_blank(s: Seq<char>) -> bool {
    forall|i: int| 0 <= i < s.len() ==> is_ws(#[trigger] s[i])
}

pub proof fn lemma_blank_iff_trim_empty(s: Seq<char>)
    ensures
        spec_is_blank(s) <==> spec_trim(s).len() == 0,
{
    lemma_first_non_ws_facts(s, 0);
    lemma_trimmed_end_facts(s, s.len() as int);
    let a = first_non_ws(s, 0);
    if spec_is_blank(s) {
        if a < s.len() {
            assert(is_ws(s[a]));
        }
    } else {
        let i = choose|i: int| 0 <= i < s.len() && !is_ws(s[i]);
        assert(a <= i);
        let b = trimmed_end(s, s.len() as int);
        assert(i < b);
    }
}

/// `first_non_ws` lands at or after `i`, on a non-whitespace character, with
/// only whitespace in between.
pub proof fn lemma_first_non_ws_facts(s: Seq<char>, i: int)
    requires
        0 <= i <= s.len(),
    ensures
        i <= first_non_ws(s, i) <= s.len(),
        first_non_ws(s, i) < s.len() ==> !is_ws(s[first_non_ws(s, i)]),
        forall|k: int| i <= k < first_non_ws(s, i) ==> is_ws(#[trigger] s[k]),
    decreases s.len() - i,
{
    if i < s.len() && is_ws(s[i]) {
        lemma_first_non_ws_facts(s, i + 1);
    }
}

/// `trimmed_end` lands at or before `j`, after a non-whitespace character,
/// with only whitespace after it up to `j`.
pub proof fn lemma_trimmed_end_facts(s: Seq<char>, j: int)
    requires
        0 <= j <= s.len(),
    ensures
        0 <= trimmed_end(s, j) <= j,
        trimmed_end(s, j) > 0 ==> !is_ws(s[trimmed_end(s, j) - 1]),
        forall|k: int| trimmed_end(s, j) <= k < j ==> is_ws(#[trigger] s[k]),
    decreases j,
{
    if j > 0 && is_ws(s[j - 1]) {
        lemma_trimmed_end_facts(s, j - 1);
    }
}

/// End of the run of non-whitespace characters starting at `i`.
pub open spec fn run_end(s: Seq<char>, i: int) -> int
    decreases s.len() - i,
{
    if i >= s.len() || i < 0 || is_ws(s[i]) {
        i
    } else {
        run_end(s, i + 1)
    }
}

pub proof fn lemma_run_end_facts(s: Seq<char>, i: int)
    requires
        0 <= i <= s.len(),
    ensures
        i <= run_end(s, i) <= s.len(),
        run_end(s, i) < s.len() ==> is_ws(s[run_end(s, i)]),
        forall|k: int| i <= k < run_end(s, i) ==> !is_ws(#[trigger] s[k]),
    decreases s.len() - i,
{
    if i < s.len() && !is_ws(s[i]) {
        lemma_run_end_facts(s, i + 1);
    }
}

/// The whitespace-separated words of `s[i..]`, as `split_whitespace` gives
/// them.
pub open spec fn words_from(s: Seq<char>, i: int) -> Seq<Seq<char>>
    decreases s.len() - i,
{
    if 0 <= i <= s.len() {
        let a = first_non_ws(s, i);
        if a >= s.len() {
            Seq::empty()
        } else {
            proof {
                lemma_first_non_ws_facts(s, i);
                lemma_run_end_facts(s, a);
            }
            let b = run_end(s, a);
            seq![s.subrange(a, b)] + words_from(s, b)
        }
    } else {
        Seq::empty()
    }
}

/// The whitespace-separated words of `s`.
pub open spec fn spec_words(s: Seq<char>) -> Seq<Seq<char>> {
    words_from(s, 0)
}

/// The views of a vector of strings.
pub open spec fn views(v: Seq<String>) -> Seq<Seq<char>> {
    v.map_values(|t: String| t@)
}

/// Split `s` at runs of whitespace, dropping empty pieces.
pub fn split_whitespace(s: &str) -> (r: Vec<String>)
    ensures
        views(r@) == spec_words(s@),
{
    let n = s.unicode_len();
    let mut out: Vec<String> = Vec::new();
    let mut i: usize = 0;
    while i < n
        invariant
            n == s@.len(),
            0 <= i <= n,
            views(out@) + words_from(s@, i as int) == spec_words(s@),
        decreases n - i,
    {
        let ghost before = views(out@);
        let mut a = i;
        while a < n && is_whitespace(s.get_char(a))
            invariant
                n == s@.len(),
                i <= a <= n,
                first_non_ws(s@, i as int) == first_non_ws(s@, a as int),
            decreases n - a,
        {
            a = a + 1;
        }
        if a == n {
            proof {
                assert(words_from(s@, i as int) == Seq::<Seq<char>>::empty());
                assert(views(out@) + words_from(s@, n as int) == views(out@));
                assert(words_from(s@, n as int) =~= Seq::<Seq<char>>::empty());
            }
            i = n;
        } else {
            let mut b = a;
            while b < n && !is_whitespace(s.get_char(b))
                invariant
                    n == s@.len(),
                    a <= b <= n,
                    run_end(s@, a as int) == run_end(s@, b as int),
                decreases n - b,
            {
                b = b + 1;
            }
            proof {
                lemma_first_non_ws_facts(s@, i as int);
                assert(first_non_ws(s@, a as int) == a);
                assert(run_end(s@, b as int) == b);
            }
            let w = String::from_str(s.substring_char(a, b));
            out.push(w);
            proof {
                assert(views(out@) =~= before.push(w@));
                assert(words_from(s@, i as int) == seq![s@.subrange(a as int, b as int)] + words_from(s@, b as int));
                assert(before + words_from(s@, i as int) =~= views(out@) + words_from(s@, b as int));
            }
            i = b;
        }
    }
    proof {
        assert(words_from(s@, n as int) =~= Seq::<Seq<char>>::empty());
        assert(views(out@) + words_from(s@, n as int) =~= views(out@));
    }
    out
}

/// Index of the last `/` in `s[..j]`, or -1.
pub open spec fn last_slash(s: Seq<char>, j: int) -> int
    decreases j,
{
    if j <= 0 || j > s.len() {
        -1
    } else if s[j - 1] == '/' {
        j - 1
    } else {
        last_slash(s, j - 1)
    }
}

/// The part of `s` after its last `/` (all of `s` when it has none).
pub open spec fn spec_basename(s: Seq<char>) -> Seq<char> {
    s.subrange(last_slash(s, s.len() as int) + 1, s.len() as int)
}

pub proof fn lemma_last_slash_range(s: Seq<char>, j: int)
    requires
        0 <= j <= s.len(),
    ensures
        -1 <= last_slash(s, j) < j,
    decreases j,
{
    if j > 0 && s[j - 1] != '/' {
        lemma_last_slash_range(s, j - 1);
    }
}

/// The part of `s` after its last `/`.
pub fn basename(s: &str) -> (r: String)
    ensures
        r@ == spec_basename(s@),
{
    let n = s.unicode_len();
    let mut j = n;
    while j > 0 && s.get_char(j - 1) != '/'
        invariant
            n == s@.len(),
            0 <= j <= n,
            last_slash(s@, n as int) == last_slash(s@, j as int),
        decreases j,
    {
        j = j - 1;
    }
    proof {
        lemma_last_slash_range(s@, n as int);
        if j > 0 {
            assert(last_slash(s@, j as int) == j - 1);
        } else {
            assert(last_slash(s@, 0) == -1);
        }
    }
    String::from_str(s.substring_char(j, n))
}

/// `s` starts with the character `c`.
pub open spec fn starts_with_char(s: Seq<char>, c: char) -> bool {
    s.len() > 0 && s[0] == c
}

/// `s` holds the character `c`.
pub open spec fn has_char(s: Seq<char>, c: char) -> bool {
    exists|i: int| 0 <= i < s.len() && s[i] == c
}

pub fn starts_with(s: &str, c: char) -> (b: bool)
    ensures
        b == starts_with_char(s@, c),
{
    s.unicode_len() > 0 && s.get_char(0) == c
}

pub fn contains_char(s: &str, c: char) -> (b: bool)
    ensures
        b == has_char(s@, c),
{
    let n = s.unicode_len();
    let mut i: usize = 0;
    while i < n
        invariant
            n == s@.len(),
            0 <= i <= n,
            forall|k: int| 0 <= k < i ==> s@[k] != c,
        decreases n - i,
    {
        if s.get_char(i) == c {
            return true;
        }
        i = i + 1;
    }
    false
}

/// The pieces joined with `sep` between each neighbouring pair.
pub open spec fn spec_join(parts: Seq<Seq<char>>, sep: Seq<char>) -> Seq<char>
    decreases parts.len(),
{
    if parts.len() == 0 {
        Seq::empty()
    } else if parts.len() == 1 {
        parts[0]
    } else {
        spec_join(parts.drop_last(), sep) + sep + parts.last()
    }
}

/// The pieces joined with `sep` between each neighbouring pair.
pub fn join(parts: &Vec<String>, sep: &str) -> (r: String)
    ensures
        r@ == spec_join(views(parts@), sep@),
{
    let n = parts.len();
    let mut out = String::new();
    let mut i: usize = 0;
    while i < n
        invariant
            n == parts@.len(),
            0 <= i <= n,
            out@ == spec_join(views(parts@).subrange(0, i as int), sep@),
        decreases n - i,
    {
        proof {
            let pre = views(parts@).subrange(0, i + 1);
            assert(pre.drop_last() =~= views(parts@).subrange(0, i as int));
            assert(pre.last() == parts@[i as int]@);
        }
        if i > 0 {
            out.append(sep);
        } else {
            assert(views(parts@).subrange(0, 0) =~= Seq::<Seq<char>>::empty());
        }
        out.append(parts[i].as_str());
        proof {
            if i == 0 {
                assert(out@ =~= parts@[0]@);
            }
        }
        i = i + 1;
    }
    proof {
        assert(views(parts@).subrange(0, n as int) =~= views(parts@));
    }
    out
}

/// The decimal digit character for `d` (0–9).
pub open spec fn digit_char(d: int) -> char {
    if d == 0 { '0' } else if d == 1 { '1' } else if d == 2 { '2' } else if d == 3 { '3' }
    else if d == 4 { '4' } else if d == 5 { '5' } else if d == 6 { '6' } else if d == 7 { '7' }
    else if d == 8 { '8' } else { '9' }
}

/// The decimal digits of a natural number, most significant first.
pub open spec fn spec_decimal_nat(n: nat) -> Seq<char>
    decreases n,
{
    if n < 10 {
        seq![digit_char(n as int)]
    } else {
        spec_decimal_nat(n / 10) + seq![digit_char((n % 10) as int)]
    }
}

/// An integer written in decimal, with a leading `-` when negative.
pub open spec fn spec_decimal(n: int) -> Seq<char> {
    if n < 0 {
        seq!['-'] + spec_decimal_nat((-n) as nat)
    } else {
        spec_decimal_nat(n as nat)
    }
}

fn digit_str(d: u64) -> (s: &'static str)
    requires
        d < 10,
    ensures
        s@ == seq![digit_char(d as int)],
{
    match d {
        0 => {
            proof { reveal_strlit("0"); }
            "0"
        },
        1 => {
            proof { reveal_strlit("1"); }
            "1"
        },
        2 => {
            proof { reveal_strlit("2"); }
            "2"
        },
        3 => {
            proof { reveal_strlit("3"); }
            "3"
        },
        4 => {
            proof { reveal_strlit("4"); }
            "4"
        },
        5 => {
            proof { reveal_strlit("5"); }
            "5"
        },
        6 => {
            proof { reveal_strlit("6"); }
            "6"
        },
        7 => {
            proof { reveal_strlit("7"); }
            "7"
        },
        8 => {
            proof { reveal_strlit("8"); }
            "8"
        },
        _ => {
            proof { reveal_strlit("9"); }
            "9"
        },
    }
}

/// Append the decimal digits of `m` to `s`.
pub fn append_decimal_u64(s: &mut String, m: u64)
    ensures
        final(s)@ == old(s)@ + spec_decimal_nat(m as nat),
    decreases m,
{
    if m >= 10 {
        append_decimal_u64(s, m / 10);
    }
    s.append(digit_str(m % 10));
    proof {
        if m >= 10 {
            assert(final(s)@ =~= old(s)@ + spec_decimal_nat(m as nat));
        } else {
            assert(final(s)@ =~= old(s)@ + spec_decimal_nat(m as nat));
        }
    }
}

/// Append `n` in decimal to `s`, with a leading `-` when negative.
pub fn append_decimal(s: &mut String, n: i64)
    ensures
        final(s)@ == old(s)@ + spec_decimal(n as int),
{
    if n < 0 {
        proof { reveal_strlit("-"); }
        s.append("-");
        let m: u64 = (-(n as i128)) as u64;
        append_decimal_u64(s, m);
        assert(final(s)@ =~= old(s)@ + spec_decimal(n as int));
    } else {
        append_decimal_u64(s, n as u64);
    }
}

} // verus!
