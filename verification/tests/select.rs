use spotwatt::select::select_within_budget;

#[test]
fn no_budget_is_slot_limited_only() {
    let got = select_within_budget(&[100, 100, 100], 2, 0, None);
    assert_eq!(got, vec![0, 1]);
}

#[test]
fn budget_caps_simultaneous_power() {
    // 3000 W budget, three 2000 W jobs: only the first fits.
    let got = select_within_budget(&[2000, 2000, 2000], 5, 0, Some(3000));
    assert_eq!(got, vec![0]);
}

#[test]
fn already_committed_power_reduces_headroom() {
    // 3000 W budget, 2500 W already running: a 1000 W job doesn't fit.
    let got = select_within_budget(&[1000], 5, 2500, Some(3000));
    assert!(got.is_empty());
}

#[test]
fn smaller_job_slots_into_leftover_headroom() {
    // The 2500 W job fits, the next 2500 W is skipped, but the trailing
    // 400 W job still fits the remaining 500 W.
    let got = select_within_budget(&[2500, 2500, 400], 5, 0, Some(3000));
    assert_eq!(got, vec![0, 2]);
}

#[test]
fn oversized_job_runs_when_nothing_is_committed() {
    let got = select_within_budget(&[9000], 5, 0, Some(3000));
    assert_eq!(got, vec![0]);
}

#[test]
fn oversized_job_waits_if_something_else_is_running() {
    let got = select_within_budget(&[9000], 5, 100, Some(3000));
    assert!(got.is_empty());
}

#[test]
fn unknown_power_is_treated_as_zero_and_always_fits() {
    let got = select_within_budget(&[0, 0], 5, 2999, Some(3000));
    assert_eq!(got, vec![0, 1]);
}

#[test]
fn zero_free_slots_starts_nothing() {
    assert!(select_within_budget(&[1, 2, 3], 0, 0, None).is_empty());
}
