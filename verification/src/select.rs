//! Choosing *which* due jobs to launch this tick: at most the free slots,
//! and within a site power budget so simultaneous load stays under the
//! capacity-tariff peak.

use vstd::prelude::*;

use crate::units::{valid_watts, MAX_WATTS};

verus! {

/// A candidate drawing `w` watts may start with `committed` watts already
/// running: within the budget, or as the sole load when nothing is committed.
pub open spec fn fits(committed: int, w: int, budget: Option<i64>) -> bool {
    match budget {
        Some(b) => committed + w <= b || committed <= 0,
        None => true,
    }
}

/// The chosen indices and the committed watts after considering the first
/// `i` candidates.
pub open spec fn selection(ws: Seq<i64>, free: int, committed: int, budget: Option<i64>, i: int) -> (Seq<int>, int)
    decreases i,
{
    if i <= 0 {
        (Seq::empty(), committed)
    } else {
        let (chosen, c) = selection(ws, free, committed, budget, i - 1);
        let w = ws[i - 1] as int;
        if chosen.len() >= free {
            (chosen, c)
        } else if fits(c, w, budget) {
            (chosen.push(i - 1), c + if w > 0 { w } else { 0 })
        } else {
            (chosen, c)
        }
    }
}

/// Greedily pick candidates to launch, in launch-priority order, honoring
/// both a free-slot count and a site power budget. Draws are watts (0 when a
/// job's draw is unknown). A candidate that would push the committed load
/// over the budget is skipped, not a hard stop: a smaller one further down
/// can still use the headroom. A candidate is always allowed when nothing is
/// yet committed, so an oversized job is not starved.
pub fn select_within_budget(
    candidate_watts: &[i64],
    free_slots: usize,
    committed_watts: i64,
    budget_watts: Option<i64>,
) -> (chosen: Vec<usize>)
    requires
        forall|i: int| 0 <= i < candidate_watts@.len() ==> valid_watts(#[trigger] candidate_watts@[i] as int),
    ensures
        chosen@.map_values(|x: usize| x as int)
            == selection(candidate_watts@, free_slots as int, committed_watts as int, budget_watts, candidate_watts@.len() as int).0,
{
    let n = candidate_watts.len();
    let mut chosen: Vec<usize> = Vec::new();
    let mut committed: i128 = committed_watts as i128;
    let mut i: usize = 0;
    while i < n
        invariant
            n == candidate_watts@.len(),
            forall|i: int| 0 <= i < candidate_watts@.len() ==> valid_watts(#[trigger] candidate_watts@[i] as int),
            0 <= i <= n,
            chosen@.map_values(|x: usize| x as int)
                == selection(candidate_watts@, free_slots as int, committed_watts as int, budget_watts, i as int).0,
            committed == selection(candidate_watts@, free_slots as int, committed_watts as int, budget_watts, i as int).1,
            committed_watts <= committed <= committed_watts + i * MAX_WATTS,
        decreases n - i,
    {
        let w = candidate_watts[i];
        assert(valid_watts(w as int));
        if chosen.len() < free_slots {
            let ok = match budget_watts {
                Some(b) => committed + w as i128 <= b as i128 || committed <= 0,
                None => true,
            };
            if ok {
                let ghost before = chosen@;
                chosen.push(i);
                proof {
                    assert(chosen@ == before.push(i));
                    assert(chosen@.map_values(|x: usize| x as int) == before.map_values(|x: usize| x as int).push(i as int));
                }
                committed = committed + if w > 0 { w as i128 } else { 0 };
            }
        }
        i = i + 1;
    }
    chosen
}

/// The chosen indices ascend, lie among the first `i` candidates, and number
/// no more than the free slots; with non-negative draws the committed load
/// only grows.
pub proof fn selection_shape(ws: Seq<i64>, free: int, committed: int, budget: Option<i64>, i: int)
    requires
        0 <= i <= ws.len(),
        free >= 0,
    ensures
        selection(ws, free, committed, budget, i).0.len() <= free,
        forall|k: int| 0 <= k < selection(ws, free, committed, budget, i).0.len()
            ==> 0 <= #[trigger] selection(ws, free, committed, budget, i).0[k] < i,
        forall|a: int, b: int| 0 <= a < b < selection(ws, free, committed, budget, i).0.len()
            ==> selection(ws, free, committed, budget, i).0[a] < selection(ws, free, committed, budget, i).0[b],
        selection(ws, free, committed, budget, i).1 >= committed,
    decreases i,
{
    if i > 0 {
        selection_shape(ws, free, committed, budget, i - 1);
    }
}

/// A budget caps the simultaneous power: with non-negative draws, a
/// non-negative committed load and a non-negative budget, the load after
/// the selection stays within the budget — unless nothing was committed
/// before and the whole load is one chosen candidate running alone, or the
/// committed load already exceeded the budget and nothing is started.
pub proof fn budget_caps_simultaneous_power(ws: Seq<i64>, free: int, committed: int, budget: i64, i: int)
    requires
        0 <= i <= ws.len(),
        free >= 0,
        forall|j: int| 0 <= j < ws.len() ==> #[trigger] ws[j] >= 0,
        committed >= 0,
        budget >= 0,
    ensures
        ({
            let (chosen, load) = selection(ws, free, committed, Some(budget), i);
            ||| load <= budget
            ||| committed == 0 && exists|k: int|
                0 <= k < chosen.len() && load == ws[#[trigger] chosen[k]] as int
            ||| committed > budget && load == committed && chosen.len() == 0
        }),
        selection(ws, free, committed, Some(budget), i).1 >= committed,
    decreases i,
{
    if i > 0 {
        budget_caps_simultaneous_power(ws, free, committed, budget, i - 1);
        let (chosen, c) = selection(ws, free, committed, Some(budget), i - 1);
        let w = ws[i - 1] as int;
        assert(w >= 0);
        if chosen.len() < free && fits(c, w, Some(budget)) {
            let next = chosen.push(i - 1);
            assert(selection(ws, free, committed, Some(budget), i) == (next, c + w));
            if c + w <= budget {
                assert(selection(ws, free, committed, Some(budget), i).1 <= budget);
            } else {
                assert(c <= 0);
                assert(c == 0);
                assert(committed == 0);
                assert(next[chosen.len() as int] == i - 1);
                assert(c + w == ws[next[chosen.len() as int]] as int);
                let r = selection(ws, free, committed, Some(budget), i);
                assert(0 <= chosen.len() < r.0.len() && r.1 == ws[r.0[chosen.len() as int]] as int);
            }
        } else {
            assert(selection(ws, free, committed, Some(budget), i) == (chosen, c));
            selection_shape(ws, free, committed, Some(budget), i - 1);
            if c > budget && !(committed > budget && c == committed && chosen.len() == 0) {
                let k = choose|k: int| 0 <= k < chosen.len() && c == ws[#[trigger] chosen[k]] as int;
                let r = selection(ws, free, committed, Some(budget), i);
                assert(0 <= k < r.0.len() && r.1 == ws[r.0[k]] as int);
            }
        }
    }
}

/// Later steps of the selection only add to what earlier ones chose.
proof fn lemma_selection_grows(ws: Seq<i64>, free: int, committed: int, budget: Option<i64>, j: int, i: int)
    requires
        0 <= j <= i,
    ensures
        selection(ws, free, committed, budget, j).0.len() <= selection(ws, free, committed, budget, i).0.len(),
        forall|k: int| 0 <= k < selection(ws, free, committed, budget, j).0.len()
            ==> #[trigger] selection(ws, free, committed, budget, i).0[k] == selection(ws, free, committed, budget, j).0[k],
    decreases i - j,
{
    if j < i {
        lemma_selection_grows(ws, free, committed, budget, j, i - 1);
    }
}

/// With nothing committed and a slot free, the first candidate always
/// starts, whatever its draw and the budget: an oversized job is never
/// starved while the site is idle.
pub proof fn first_candidate_starts_when_idle(ws: Seq<i64>, free: int, committed: int, budget: Option<i64>)
    requires
        ws.len() >= 1,
        free >= 1,
        committed <= 0,
    ensures
        selection(ws, free, committed, budget, ws.len() as int).0.len() >= 1,
        selection(ws, free, committed, budget, ws.len() as int).0[0] == 0,
{
    assert(selection(ws, free, committed, budget, 0).0.len() == 0);
    assert(selection(ws, free, committed, budget, 1).0 =~= seq![0int]);
    lemma_selection_grows(ws, free, committed, budget, 1, ws.len() as int);
}

/// Without a budget the selection is the first `free` candidates.
pub proof fn no_budget_takes_the_first_free_slots(ws: Seq<i64>, free: int, committed: int, i: int)
    requires
        0 <= i <= ws.len(),
        free >= 0,
    ensures
        selection(ws, free, committed, None, i).0 =~= Seq::new(
            if i < free { i as nat } else { free as nat },
            |k: int| k,
        ),
    decreases i,
{
    if i > 0 {
        no_budget_takes_the_first_free_slots(ws, free, committed, i - 1);
    }
}

} // verus!
