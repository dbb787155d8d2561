//! Hourly price points and the ordered series the scheduler searches.

use vstd::prelude::*;

use crate::tariff::{valid_spot, Tariff};
use crate::units::{floor_div, valid_price, valid_time, MAX_POINTS};

verus! {

/// A single hourly price point: `[start, end)` in Unix seconds, and the price
/// in µNOK/kWh and µEUR/kWh.
#[derive(Debug, Clone, Copy, PartialEq, Eq, Structural)]
pub struct PricePoint {
    pub start: i64,
    pub end: i64,
    pub nok_per_kwh: i64,
    pub eur_per_kwh: i64,
}

impl PricePoint {
    /// Instants and prices within the ranges the library computes with.
    pub open spec fn valid(self) -> bool {
        &&& valid_time(self.start as int)
        &&& valid_time(self.end as int)
        &&& valid_price(self.nok_per_kwh as int)
        &&& valid_price(self.eur_per_kwh as int)
    }

    pub open spec fn spec_contains(self, t: int) -> bool {
        self.start <= t < self.end
    }

    /// Whether instant `t` falls inside this hour (`[start, end)`).
    pub fn contains(&self, t: i64) -> (b: bool)
        ensures
            b == self.spec_contains(t as int),
    {
        t >= self.start && t < self.end
    }
}

/// Starts strictly ascending.
pub open spec fn sorted_by_start(s: Seq<PricePoint>) -> bool {
    forall|i: int, j: int| 0 <= i < j < s.len() ==> s[i].start < s[j].start
}

pub open spec fn all_valid(s: Seq<PricePoint>) -> bool {
    forall|i: int| 0 <= i < s.len() ==> #[trigger] s[i].valid()
}

/// Some point of `s` starts at `t`.
pub open spec fn has_start(s: Seq<PricePoint>, t: int) -> bool {
    exists|k: int| 0 <= k < s.len() && #[trigger] s[k].start == t
}

/// No point before index `j` shares the start of `s[j]`.
pub open spec fn first_with_its_start(s: Seq<PricePoint>, j: int) -> bool {
    forall|j2: int| 0 <= j2 < j ==> #[trigger] s[j2].start != s[j].start
}

/// `p` is the earliest point of `s` with its start.
pub open spec fn is_first_occurrence(s: Seq<PricePoint>, p: PricePoint) -> bool {
    exists|j: int| 0 <= j < s.len() && #[trigger] s[j] == p && first_with_its_start(s, j)
}

/// Sum of the NOK prices of a sequence of points.
pub open spec fn sum_nok(s: Seq<PricePoint>) -> int
    decreases s.len(),
{
    if s.len() == 0 {
        0
    } else {
        sum_nok(s.drop_last()) + s.last().nok_per_kwh
    }
}

/// `i` is the first index holding the lowest NOK price.
pub open spec fn is_first_min(s: Seq<PricePoint>, i: int) -> bool {
    &&& 0 <= i < s.len()
    &&& forall|j: int| 0 <= j < s.len() ==> s[i].nok_per_kwh <= #[trigger] s[j].nok_per_kwh
    &&& forall|j: int| 0 <= j < i ==> s[i].nok_per_kwh < #[trigger] s[j].nok_per_kwh
}

/// `i` is the last index holding the highest NOK price.
pub open spec fn is_last_max(s: Seq<PricePoint>, i: int) -> bool {
    &&& 0 <= i < s.len()
    &&& forall|j: int| 0 <= j < s.len() ==> #[trigger] s[j].nok_per_kwh <= s[i].nok_per_kwh
    &&& forall|j: int| i < j < s.len() ==> #[trigger] s[j].nok_per_kwh < s[i].nok_per_kwh
}

/// `i` is the first index whose hour contains `t`.
pub open spec fn is_first_containing(s: Seq<PricePoint>, t: int, i: int) -> bool {
    &&& 0 <= i < s.len()
    &&& s[i].spec_contains(t)
    &&& forall|j: int| 0 <= j < i ==> !(#[trigger] s[j]).spec_contains(t)
}

/// The point whose hour first contains `t`, if any.
pub open spec fn spec_price_at(s: Seq<PricePoint>, t: int) -> Option<PricePoint> {
    if exists|i: int| is_first_containing(s, t, i) {
        Some(s[choose|i: int| is_first_containing(s, t, i)])
    } else {
        None
    }
}

/// At most one index is the first containing `t`.
pub proof fn lemma_first_containing_unique(s: Seq<PricePoint>, t: int, i: int, j: int)
    requires
        is_first_containing(s, t, i),
        is_first_containing(s, t, j),
    ensures
        i == j,
{
    if i < j {
        assert(!s[i].spec_contains(t));
    } else if j < i {
        assert(!s[j].spec_contains(t));
    }
}

/// An ordered series of hourly price points, sorted ascending by start time
/// with duplicate starts removed.
#[derive(Debug, Clone)]
pub struct PriceSeries {
    pub points: Vec<PricePoint>,
}

impl PriceSeries {
    /// Sorted strictly by start, every point valid, and no more than
    /// `MAX_POINTS` of them.
    pub open spec fn wf(&self) -> bool {
        &&& self.points.len() <= MAX_POINTS
        &&& all_valid(self.points@)
        &&& sorted_by_start(self.points@)
    }

    /// An empty series.
    pub fn empty() -> (r: PriceSeries)
        ensures
            r.wf(),
            r.points@.len() == 0,
    {
        PriceSeries { points: Vec::new() }
    }

    /// Sort `points` by start and drop later points whose start repeats an
    /// earlier one, so the earliest fetched value for a given hour wins.
    pub fn new(points: Vec<PricePoint>) -> (r: PriceSeries)
        requires
            points.len() <= MAX_POINTS,
            all_valid(points@),
        ensures
            r.wf(),
            r.points@.len() <= points@.len(),
            forall|k: int|
                0 <= k < r.points@.len() ==> is_first_occurrence(points@, #[trigger] r.points@[k]),
            forall|j: int|
                0 <= j < points@.len() ==> has_start(r.points@, #[trigger] points@[j].start as int),
    {
        let n = points.len();
        let mut out: Vec<PricePoint> = Vec::new();
        let mut i: usize = 0;
        while i < n
            invariant
                n == points.len(),
                n <= MAX_POINTS,
                all_valid(points@),
                0 <= i <= n,
                out.len() <= i,
                all_valid(out@),
                sorted_by_start(out@),
                forall|k: int|
                    0 <= k < out@.len() ==> is_first_occurrence(points@, #[trigger] out@[k]),
                forall|j: int| 0 <= j < i ==> has_start(out@, #[trigger] points@[j].start as int),
            decreases n - i,
        {
            let p = points[i];
            let mut pos: usize = 0;
            while pos < out.len() && out[pos].start < p.start
                invariant
                    0 <= pos <= out.len(),
                    forall|k: int| 0 <= k < pos ==> #[trigger] out@[k].start < p.start,
                decreases out.len() - pos,
            {
                pos = pos + 1;
            }
            let dup = pos < out.len() && out[pos].start == p.start;
            if !dup {
                let ghost old_out = out@;
                proof {
                    // No earlier input point shares p's start, or `out` would hold it.
                    assert forall|j2: int| 0 <= j2 < i implies #[trigger] points@[j2].start != p.start by {
                        if points@[j2].start == p.start {
                            assert(has_start(old_out, points@[j2].start as int));
                            let k = choose|k: int| 0 <= k < old_out.len() && #[trigger] old_out[k].start == points@[j2].start;
                            if k < pos {
                            } else {
                                assert(old_out[pos as int].start <= old_out[k].start);
                            }
                        }
                    }
                    assert(first_with_its_start(points@, i as int));
                    assert(points@[i as int] == p);
                }
                out.insert(pos, p);
                proof {
                    assert(out@ == old_out.insert(pos as int, p));
                    assert forall|a: int, b: int| 0 <= a < b < out@.len() implies out@[a].start < out@[b].start by {
                        if b < pos {
                        } else if b == pos {
                        } else if a < pos {
                            assert(out@[b] == old_out[b - 1]);
                            if pos < old_out.len() {
                                assert(old_out[pos as int].start <= old_out[b - 1].start);
                            }
                        } else if a == pos {
                            assert(out@[b] == old_out[b - 1]);
                            assert(old_out[pos as int].start <= old_out[b - 1].start);
                        } else {
                            assert(out@[a] == old_out[a - 1]);
                            assert(out@[b] == old_out[b - 1]);
                        }
                    }
                    assert forall|k: int| 0 <= k < out@.len() implies is_first_occurrence(points@, #[trigger] out@[k]) by {
                        if k < pos {
                            assert(out@[k] == old_out[k]);
                        } else if k == pos {
                            assert(points@[i as int] == out@[k]);
                        } else {
                            assert(out@[k] == old_out[k - 1]);
                        }
                    }
                    assert forall|k: int| 0 <= k < out@.len() implies #[trigger] out@[k].valid() by {
                        if k < pos {
                            assert(out@[k] == old_out[k]);
                        } else if k > pos {
                            assert(out@[k] == old_out[k - 1]);
                        }
                    }
                    assert forall|j: int| 0 <= j <= i implies has_start(out@, #[trigger] points@[j].start as int) by {
                        if j == i {
                            assert(out@[pos as int].start == p.start);
                        } else {
                            let k = choose|k: int| 0 <= k < old_out.len() && #[trigger] old_out[k].start == points@[j].start;
                            if k < pos {
                                assert(out@[k] == old_out[k]);
                            } else {
                                assert(out@[k + 1] == old_out[k]);
                            }
                        }
                    }
                }
            } else {
                proof {
                    assert forall|j: int| 0 <= j <= i implies has_start(out@, #[trigger] points@[j].start as int) by {
                        if j == i {
                            assert(out@[pos as int].start == points@[j].start);
                        }
                    }
                }
            }
            i = i + 1;
        }
        PriceSeries { points: out }
    }

    pub fn is_empty(&self) -> (b: bool)
        ensures
            b == (self.points@.len() == 0),
    {
        self.points.len() == 0
    }

    pub fn len(&self) -> (n: usize)
        ensures
            n == self.points@.len(),
    {
        self.points.len()
    }

    /// The first price point covering instant `t`, if any.
    pub fn price_at(&self, t: i64) -> (r: Option<PricePoint>)
        ensures
            r == spec_price_at(self.points@, t as int),
            r is None <==> forall|i: int|
                0 <= i < self.points@.len() ==> !(#[trigger] self.points@[i]).spec_contains(t as int),
            r matches Some(p) ==> exists|i: int|
                is_first_containing(self.points@, t as int, i) && #[trigger] self.points@[i] == p,
    {
        let n = self.points.len();
        let mut i: usize = 0;
        while i < n
            invariant
                n == self.points@.len(),
                0 <= i <= n,
                forall|j: int| 0 <= j < i ==> !(#[trigger] self.points@[j]).spec_contains(t as int),
            decreases n - i,
        {
            if self.points[i].contains(t) {
                proof {
                    assert(is_first_containing(self.points@, t as int, i as int));
                    let c = choose|c: int| is_first_containing(self.points@, t as int, c);
                    lemma_first_containing_unique(self.points@, t as int, i as int, c);
                }
                return Some(self.points[i]);
            }
            i = i + 1;
        }
        proof {
            assert forall|c: int| !is_first_containing(self.points@, t as int, c) by {
                if 0 <= c < n {
                    assert(!self.points@[c].spec_contains(t as int));
                }
            }
        }
        None
    }

    /// Start of the first known hour.
    pub fn first_start(&self) -> (r: Option<i64>)
        ensures
            r == (if self.points@.len() == 0 { None } else { Some(self.points@[0].start) }),
    {
        if self.points.len() == 0 {
            None
        } else {
            Some(self.points[0].start)
        }
    }

    /// End of the known horizon (exclusive), i.e. the last hour's end time.
    pub fn last_end(&self) -> (r: Option<i64>)
        ensures
            r == (if self.points@.len() == 0 {
                None
            } else {
                Some(self.points@[self.points@.len() - 1].end)
            }),
    {
        let n = self.points.len();
        if n == 0 {
            None
        } else {
            Some(self.points[n - 1].end)
        }
    }

    /// The cheapest point; the first of several equally cheap ones.
    pub fn min_point(&self) -> (r: Option<PricePoint>)
        ensures
            r is None <==> self.points@.len() == 0,
            r matches Some(p) ==> exists|i: int|
                is_first_min(self.points@, i) && #[trigger] self.points@[i] == p,
    {
        let n = self.points.len();
        if n == 0 {
            return None;
        }
        let mut best: usize = 0;
        let mut i: usize = 1;
        while i < n
            invariant
                n == self.points@.len(),
                1 <= i <= n,
                0 <= best < i,
                forall|j: int| 0 <= j < i ==> self.points@[best as int].nok_per_kwh <= #[trigger] self.points@[j].nok_per_kwh,
                forall|j: int| 0 <= j < best ==> self.points@[best as int].nok_per_kwh < #[trigger] self.points@[j].nok_per_kwh,
            decreases n - i,
        {
            if self.points[i].nok_per_kwh < self.points[best].nok_per_kwh {
                best = i;
            }
            i = i + 1;
        }
        proof {
            assert(is_first_min(self.points@, best as int));
        }
        Some(self.points[best])
    }

    /// The dearest point; the last of several equally dear ones.
    pub fn max_point(&self) -> (r: Option<PricePoint>)
        ensures
            r is None <==> self.points@.len() == 0,
            r matches Some(p) ==> exists|i: int|
                is_last_max(self.points@, i) && #[trigger] self.points@[i] == p,
    {
        let n = self.points.len();
        if n == 0 {
            return None;
        }
        let mut best: usize = 0;
        let mut i: usize = 1;
        while i < n
            invariant
                n == self.points@.len(),
                1 <= i <= n,
                0 <= best < i,
                forall|j: int| 0 <= j < i ==> #[trigger] self.points@[j].nok_per_kwh <= self.points@[best as int].nok_per_kwh,
                forall|j: int| best < j < i ==> #[trigger] self.points@[j].nok_per_kwh < self.points@[best as int].nok_per_kwh,
            decreases n - i,
        {
            if self.points[i].nok_per_kwh >= self.points[best].nok_per_kwh {
                best = i;
            }
            i = i + 1;
        }
        proof {
            assert(is_last_max(self.points@, best as int));
        }
        Some(self.points[best])
    }

    /// Mean NOK price over the series, rounded down to the micro-krone.
    pub fn avg_nok(&self) -> (r: Option<i64>)
        requires
            self.wf(),
        ensures
            r is None <==> self.points@.len() == 0,
            r matches Some(a) ==> a == floor_div(sum_nok(self.points@), self.points@.len() as int),
    {
        let n = self.points.len();
        if n == 0 {
            return None;
        }
        let sum = sum_nok_exec(&self.points, 0, n);
        proof {
            assert(self.points@.subrange(0, n as int) == self.points@);
            lemma_sum_bounds(self.points@);
            lemma_avg_bounds(sum_nok(self.points@), n as int);
        }
        let q = crate::units::div_floor(sum, n as i128);
        Some(q as i64)
    }

    /// A copy of this series with every hour's NOK price replaced by the
    /// effective consumer price under `tariff` for that hour. The EUR price
    /// is left untouched.
    pub fn with_tariff(&self, tariff: &Tariff) -> (r: PriceSeries)
        requires
            self.wf(),
            tariff.wf(),
            forall|i: int| 0 <= i < self.points@.len() ==> valid_spot(#[trigger] self.points@[i].nok_per_kwh as int),
        ensures
            r.wf(),
            r.points@.len() == self.points@.len(),
            forall|i: int| 0 <= i < r.points@.len() ==> {
                &&& (#[trigger] r.points@[i]).start == self.points@[i].start
                &&& r.points@[i].end == self.points@[i].end
                &&& r.points@[i].eur_per_kwh == self.points@[i].eur_per_kwh
                &&& r.points@[i].nok_per_kwh == tariff.spec_effective_at(
                    self.points@[i].nok_per_kwh as int,
                    self.points@[i].start,
                )
            },
    {
        let n = self.points.len();
        let mut out: Vec<PricePoint> = Vec::new();
        let mut i: usize = 0;
        while i < n
            invariant
                n == self.points@.len(),
                self.wf(),
                tariff.wf(),
                forall|i: int| 0 <= i < self.points@.len() ==> valid_spot(#[trigger] self.points@[i].nok_per_kwh as int),
                0 <= i <= n,
                out@.len() == i,
                forall|k: int| 0 <= k < i ==> {
                    &&& (#[trigger] out@[k]).start == self.points@[k].start
                    &&& out@[k].end == self.points@[k].end
                    &&& out@[k].eur_per_kwh == self.points@[k].eur_per_kwh
                    &&& out@[k].nok_per_kwh == tariff.spec_effective_at(
                        self.points@[k].nok_per_kwh as int,
                        self.points@[k].start,
                    )
                    &&& out@[k].valid()
                },
            decreases n - i,
        {
            let p = self.points[i];
            assert(p.valid());
            let e = tariff.effective_at(p.nok_per_kwh, p.start);
            out.push(PricePoint { start: p.start, end: p.end, nok_per_kwh: e, eur_per_kwh: p.eur_per_kwh });
            i = i + 1;
        }
        let r = PriceSeries { points: out };
        proof {
            assert forall|a: int, b: int| 0 <= a < b < r.points@.len() implies r.points@[a].start < r.points@[b].start by {
                assert(r.points@[a].start == self.points@[a].start);
                assert(r.points@[b].start == self.points@[b].start);
            }
        }
        r
    }
}

/// Sum of the NOK prices of `v[lo..hi]`.
pub fn sum_nok_exec(v: &Vec<PricePoint>, lo: usize, hi: usize) -> (s: i128)
    requires
        lo <= hi <= v.len(),
        v.len() <= MAX_POINTS,
        all_valid(v@),
    ensures
        s == sum_nok(v@.subrange(lo as int, hi as int)),
{
    let mut s: i128 = 0;
    let mut i: usize = lo;
    while i < hi
        invariant
            lo <= i <= hi <= v.len(),
            v.len() <= MAX_POINTS,
            all_valid(v@),
            s == sum_nok(v@.subrange(lo as int, i as int)),
            -(i - lo) * crate::units::MAX_PRICE <= s <= (i - lo) * crate::units::MAX_PRICE,
        decreases hi - i,
    {
        proof {
            assert(v@.subrange(lo as int, i + 1).drop_last() == v@.subrange(lo as int, i as int));
            assert(v@[i as int].valid());
        }
        s = s + v[i].nok_per_kwh as i128;
        i = i + 1;
    }
    s
}

/// The sum of `n` valid prices is within `n` times the price bound.
pub proof fn lemma_sum_bounds(s: Seq<PricePoint>)
    requires
        all_valid(s),
    ensures
        -s.len() * crate::units::MAX_PRICE <= sum_nok(s) <= s.len() * crate::units::MAX_PRICE,
    decreases s.len(),
{
    if s.len() > 0 {
        assert(all_valid(s.drop_last()));
        lemma_sum_bounds(s.drop_last());
        assert(s[s.len() - 1].valid());
    }
}

proof fn lemma_avg_bounds(sum: int, n: int)
    requires
        n >= 1,
        -n * crate::units::MAX_PRICE <= sum <= n * crate::units::MAX_PRICE,
    ensures
        valid_price(floor_div(sum, n)),
{
    vstd::arithmetic::div_mod::lemma_div_is_ordered(sum, n * crate::units::MAX_PRICE, n);
    vstd::arithmetic::div_mod::lemma_div_is_ordered(-n * crate::units::MAX_PRICE, sum, n);
    vstd::arithmetic::div_mod::lemma_div_multiples_vanish(crate::units::MAX_PRICE as int, n);
    vstd::arithmetic::div_mod::lemma_div_multiples_vanish(-crate::units::MAX_PRICE, n);
    assert(n * crate::units::MAX_PRICE == crate::units::MAX_PRICE * n) by (nonlinear_arith);
    assert(-n * crate::units::MAX_PRICE == n * (-crate::units::MAX_PRICE)) by (nonlinear_arith);
}

} // verus!
