//! Finding contiguous blocks of cheap hours in a price series — the search
//! half of scheduling. The decision half lives in [`crate::schedule`].

use vstd::prelude::*;

use crate::price::{all_valid, sum_nok, sum_nok_exec, PricePoint, PriceSeries, lemma_sum_bounds};
use crate::units::{floor_div, valid_price, MAX_POINTS, MAX_PRICE};

verus! {

/// A contiguous block of `hours` hourly slots and its cost.
#[derive(Debug, Clone, Copy, PartialEq, Eq, Structural)]
pub struct Window {
    pub start: i64,
    pub end: i64,
    pub start_index: usize,
    pub hours: usize,
    /// Mean µNOK/kWh across the window, rounded down.
    pub avg_nok: i64,
    /// Sum of µNOK/kWh across the window (proportional to the energy cost at
    /// constant power, so it ranks windows correctly).
    pub sum_nok: i128,
}

/// Whole hourly slots a job of `minutes` occupies: at least one, and no more
/// than `usize::MAX`.
pub open spec fn spec_slots_for(minutes: int) -> int {
    let whole = if minutes <= 0 { 1 } else { (minutes + 59) / 60 };
    if whole > usize::MAX { usize::MAX as int } else { whole }
}

/// Whole hourly slots a job of `minutes` occupies (at least one).
pub fn slots_for(minutes: i64) -> (k: usize)
    ensures
        k == spec_slots_for(minutes as int),
        k >= 1,
{
    if minutes <= 0 {
        return 1;
    }
    let whole: i64 = minutes / 60 + if minutes % 60 == 0 { 0 } else { 1 };
    assert(whole == (minutes + 59) / 60);
    if whole as u64 > usize::MAX as u64 {
        usize::MAX
    } else {
        whole as usize
    }
}

/// The `k` slots from index `i` are back to back: each ends where the next
/// starts.
pub open spec fn contiguous(s: Seq<PricePoint>, i: int, k: int) -> bool {
    forall|j: int| i <= j < i + k - 1 ==> #[trigger] s[j].end == s[j + 1].start
}

/// The sum of the NOK prices of the `k` slots from index `i`.
pub open spec fn window_sum(s: Seq<PricePoint>, i: int, k: int) -> int {
    sum_nok(s.subrange(i, i + k))
}

/// A window of `k` slots from index `i` that the cheapest-window search may
/// choose: in range, contiguous, starting no earlier than `earliest` and, with
/// a deadline, ending no later than it.
pub open spec fn eligible(s: Seq<PricePoint>, i: int, k: int, earliest: int, deadline: Option<i64>) -> bool {
    &&& k >= 1
    &&& 0 <= i
    &&& i + k <= s.len()
    &&& contiguous(s, i, k)
    &&& s[i].start >= earliest
    &&& (deadline matches Some(dl) ==> s[i + k - 1].end <= dl)
}

/// `w` describes the window of `k` slots from `w.start_index`.
pub open spec fn describes(w: Window, s: Seq<PricePoint>, k: int) -> bool {
    let i = w.start_index as int;
    &&& w.hours == k
    &&& 0 <= i && i + k <= s.len()
    &&& w.start == s[i].start
    &&& w.end == s[i + k - 1].end
    &&& w.sum_nok == window_sum(s, i, k)
    &&& w.avg_nok == floor_div(window_sum(s, i, k), k)
}

/// The window from index `i` is the cheapest eligible one, and no earlier
/// eligible window costs as little.
pub open spec fn is_best(s: Seq<PricePoint>, i: int, k: int, earliest: int, deadline: Option<i64>) -> bool {
    &&& eligible(s, i, k, earliest, deadline)
    &&& forall|j: int| eligible(s, j, k, earliest, deadline) ==> window_sum(s, i, k) <= window_sum(s, j, k)
    &&& forall|j: int| 0 <= j < i && eligible(s, j, k, earliest, deadline)
        ==> window_sum(s, i, k) < window_sum(s, j, k)
}

/// The window of `k` slots from index `i`.
pub open spec fn window_of(s: Seq<PricePoint>, i: int, k: int) -> Window {
    Window {
        start: s[i].start,
        end: s[i + k - 1].end,
        start_index: i as usize,
        hours: k as usize,
        avg_nok: floor_div(window_sum(s, i, k), k) as i64,
        sum_nok: window_sum(s, i, k) as i128,
    }
}

/// The window the cheapest-window search chooses, if any is eligible.
pub open spec fn spec_cheapest_window(s: Seq<PricePoint>, earliest: int, deadline: Option<i64>, k: int) -> Option<Window> {
    if exists|i: int| is_best(s, i, k, earliest, deadline) {
        Some(window_of(s, choose|i: int| is_best(s, i, k, earliest, deadline), k))
    } else {
        None
    }
}

/// At most one window is the best.
pub proof fn lemma_best_unique(s: Seq<PricePoint>, i: int, j: int, k: int, earliest: int, deadline: Option<i64>)
    requires
        is_best(s, i, k, earliest, deadline),
        is_best(s, j, k, earliest, deadline),
    ensures
        i == j,
{
}

/// Whether the `k` slots from `i` are back to back.
fn is_contiguous(pts: &Vec<PricePoint>, i: usize, k: usize) -> (b: bool)
    requires
        k >= 1,
        i + k <= pts.len(),
    ensures
        b == contiguous(pts@, i as int, k as int),
{
    let mut j = i;
    while j + 1 < i + k
        invariant
            i <= j,
            j + 1 <= i + k,
            i + k <= pts.len(),
            forall|m: int| i <= m < j ==> #[trigger] pts@[m].end == pts@[m + 1].start,
        decreases i + k - j,
    {
        if pts[j].end != pts[j + 1].start {
            return false;
        }
        j = j + 1;
    }
    true
}

/// Build the window of `k` slots from index `i`.
fn make_window(pts: &Vec<PricePoint>, i: usize, k: usize) -> (w: Window)
    requires
        k >= 1,
        i + k <= pts.len(),
        pts.len() <= MAX_POINTS,
        all_valid(pts@),
    ensures
        describes(w, pts@, k as int),
        w.start_index == i,
{
    let sum = sum_nok_exec(pts, i, i + k);
    proof {
        let sub = pts@.subrange(i as int, (i + k) as int);
        assert(all_valid(sub)) by {
            assert forall|m: int| 0 <= m < sub.len() implies #[trigger] sub[m].valid() by {
                assert(sub[m] == pts@[i + m]);
            }
        }
        lemma_sum_bounds(sub);
        lemma_avg_in_range(sum as int, k as int);
    }
    let avg = crate::units::div_floor(sum, k as i128);
    Window {
        start: pts[i].start,
        end: pts[i + k - 1].end,
        start_index: i,
        hours: k,
        avg_nok: avg as i64,
        sum_nok: sum,
    }
}

proof fn lemma_avg_in_range(sum: int, k: int)
    requires
        k >= 1,
        -k * MAX_PRICE <= sum <= k * MAX_PRICE,
    ensures
        valid_price(floor_div(sum, k)),
{
    vstd::arithmetic::div_mod::lemma_div_is_ordered(sum, k * MAX_PRICE, k);
    vstd::arithmetic::div_mod::lemma_div_is_ordered(-k * MAX_PRICE, sum, k);
    vstd::arithmetic::div_mod::lemma_div_multiples_vanish(MAX_PRICE as int, k);
    vstd::arithmetic::div_mod::lemma_div_multiples_vanish(-MAX_PRICE, k);
    assert(k * MAX_PRICE == MAX_PRICE * k) by (nonlinear_arith);
    assert(-k * MAX_PRICE == k * (-MAX_PRICE)) by (nonlinear_arith);
}

/// Cheapest contiguous window of `k` hourly slots whose start is at or after
/// `earliest` and (if `deadline` is set) whose end is at or before it. Ties
/// are broken toward the earliest start.
pub fn cheapest_window(prices: &PriceSeries, earliest: i64, deadline: Option<i64>, k: usize) -> (r: Option<Window>)
    requires
        prices.wf(),
    ensures
        r == spec_cheapest_window(prices.points@, earliest as int, deadline, k as int),
        r is None <==> forall|i: int| !eligible(prices.points@, i, k as int, earliest as int, deadline),
        r matches Some(w) ==> {
            &&& describes(w, prices.points@, k as int)
            &&& eligible(prices.points@, w.start_index as int, k as int, earliest as int, deadline)
            &&& forall|j: int| eligible(prices.points@, j, k as int, earliest as int, deadline)
                ==> window_sum(prices.points@, w.start_index as int, k as int)
                    <= window_sum(prices.points@, j, k as int)
            &&& forall|j: int| 0 <= j < w.start_index && eligible(prices.points@, j, k as int, earliest as int, deadline)
                ==> window_sum(prices.points@, w.start_index as int, k as int)
                    < window_sum(prices.points@, j, k as int)
        },
{
    let pts = &prices.points;
    let n = pts.len();
    if k == 0 || n < k {
        proof {
            assert forall|c: int| !is_best(pts@, c, k as int, earliest as int, deadline) by {}
        }
        return None;
    }
    let mut best: Option<Window> = None;
    let mut i: usize = 0;
    while i <= n - k
        invariant
            pts == &prices.points,
            n == pts.len(),
            prices.wf(),
            1 <= k <= n,
            0 <= i <= n - k + 1,
            best is None <==> forall|j: int| 0 <= j < i ==> !eligible(pts@, j, k as int, earliest as int, deadline),
            best matches Some(w) ==> {
                &&& describes(w, pts@, k as int)
                &&& w.start_index < i
                &&& eligible(pts@, w.start_index as int, k as int, earliest as int, deadline)
                &&& forall|j: int| 0 <= j < i && eligible(pts@, j, k as int, earliest as int, deadline)
                    ==> window_sum(pts@, w.start_index as int, k as int) <= window_sum(pts@, j, k as int)
                &&& forall|j: int| 0 <= j < w.start_index && eligible(pts@, j, k as int, earliest as int, deadline)
                    ==> window_sum(pts@, w.start_index as int, k as int) < window_sum(pts@, j, k as int)
            },
        decreases n - k + 1 - i,
    {
        let fits_deadline = match deadline {
            Some(dl) => pts[i + k - 1].end <= dl,
            None => true,
        };
        let ok = is_contiguous(pts, i, k) && pts[i].start >= earliest && fits_deadline;
        assert(ok == eligible(pts@, i as int, k as int, earliest as int, deadline));
        if ok {
            let w = make_window(pts, i, k);
            let better = match best {
                Some(b) => w.sum_nok < b.sum_nok,
                None => true,
            };
            if better {
                best = Some(w);
            }
        }
        i = i + 1;
    }
    proof {
        assert forall|j: int| !(0 <= j < i) implies !eligible(pts@, j, k as int, earliest as int, deadline) by {}
        match best {
            Some(w) => {
                let bi = w.start_index as int;
                assert(is_best(pts@, bi, k as int, earliest as int, deadline));
                let c = choose|c: int| is_best(pts@, c, k as int, earliest as int, deadline);
                lemma_best_unique(pts@, bi, c, k as int, earliest as int, deadline);
                assert(w == window_of(pts@, bi, k as int));
            }
            None => {
                assert forall|c: int| !is_best(pts@, c, k as int, earliest as int, deadline) by {}
            }
        }
    }
    best
}

/// The window of `k` slots beginning at the first slot that has not ended by
/// `from`, if those slots exist and are contiguous. Used to price the "if it
/// ran now" baseline.
pub fn window_at(prices: &PriceSeries, from: i64, k: usize) -> (r: Option<Window>)
    requires
        prices.wf(),
    ensures
        r is Some <==> exists|i: int| {
            &&& k >= 1
            &&& is_first_not_over(prices.points@, from as int, i)
            &&& i + k <= prices.points@.len()
            &&& contiguous(prices.points@, i, k as int)
        },
        r matches Some(w) ==> describes(w, prices.points@, k as int)
            && is_first_not_over(prices.points@, from as int, w.start_index as int),
{
    let pts = &prices.points;
    let n = pts.len();
    if k == 0 {
        return None;
    }
    let mut i: usize = 0;
    while i < n && pts[i].end <= from
        invariant
            n == pts.len(),
            0 <= i <= n,
            forall|j: int| 0 <= j < i ==> (#[trigger] pts@[j]).end <= from,
        decreases n - i,
    {
        i = i + 1;
    }
    if i == n {
        proof {
            assert forall|m: int| !is_first_not_over(pts@, from as int, m) by {}
        }
        return None;
    }
    proof {
        assert(is_first_not_over(pts@, from as int, i as int));
        assert forall|m: int| #[trigger] is_first_not_over(pts@, from as int, m) implies m == i by {
            if m < i {
            } else if m > i {
                assert(pts@[i as int].end > from);
            }
        }
    }
    if k > n || i > n - k {
        return None;
    }
    if !is_contiguous(pts, i, k) {
        return None;
    }
    Some(make_window(pts, i, k))
}

/// `i` is the first slot that has not ended by `from`.
pub open spec fn is_first_not_over(s: Seq<PricePoint>, from: int, i: int) -> bool {
    &&& 0 <= i < s.len()
    &&& s[i].end > from
    &&& forall|j: int| 0 <= j < i ==> (#[trigger] s[j]).end <= from
}

} // verus!
