use chrono::{TimeZone, Utc};
use spotwatt::job::{Policy, Priority};
use spotwatt::learn::DurationLearner;
use spotwatt::model::{Job, JobStatus, Repeat};
use spotwatt::price::{PricePoint, PriceSeries};
use spotwatt::scheduler::{decide_tick, free_slots, launch_order, Launcher};

const HOUR: i64 = 3600;

fn job(id: i64, policy: Policy) -> Job {
    Job {
        id,
        name: format!("job {id}"),
        command: format!("task-{id}"),
        policy,
        duration_minutes: 60,
        deadline: None,
        power_watts: None,
        priority: Priority::Normal,
        repeat: Repeat::Once,
        earliest_start: None,
        status: JobStatus::Pending,
        scheduled_start: None,
        created_at: 0,
        started_at: None,
        finished_at: None,
        exit_code: None,
        output: None,
        est_cost_nok: None,
        baseline_cost_nok: None,
    }
}

fn series(start: i64, prices: &[i64]) -> PriceSeries {
    let pts = prices
        .iter()
        .enumerate()
        .map(|(i, &p)| {
            let s = start + HOUR * i as i64;
            PricePoint { start: s, end: s + HOUR, nok_per_kwh: p, eur_per_kwh: p / 11 }
        })
        .collect();
    PriceSeries::new(pts)
}

#[test]
fn priority_then_deadline_then_arrival() {
    let keys = vec![
        (Priority::Normal, None),
        (Priority::High, Some(500)),
        (Priority::Normal, Some(100)),
        (Priority::High, Some(200)),
        (Priority::Normal, None),
        (Priority::Critical, None),
    ];
    assert_eq!(launch_order(&keys), vec![5, 3, 1, 2, 0, 4]);
}

#[test]
fn free_slots_never_negative() {
    assert_eq!(free_slots(2, 0), 2);
    assert_eq!(free_slots(2, 1), 1);
    assert_eq!(free_slots(2, 5), 0);
}

#[test]
fn tick_plans_every_job_and_launches_within_limits() {
    let base = Utc.with_ymd_and_hms(2026, 7, 1, 0, 0, 0).unwrap().timestamp();
    let prices = series(base, &[100_000, 900_000, 900_000]);
    let mut a = job(1, Policy::Immediate);
    a.power_watts = Some(2500);
    let mut b = job(2, Policy::CheapestWindow);
    b.priority = Priority::High;
    b.power_watts = Some(2500);
    let mut c = job(3, Policy::Threshold { max_nok_per_kwh: 50_000 });
    c.power_watts = Some(100);
    let mut d = job(4, Policy::Immediate);
    d.power_watts = Some(400);
    let pending = vec![a, b, c, d];
    let learner = DurationLearner::from_history(vec![]);
    let t = decide_tick(&pending, &learner, &prices, base, 0, 5, 0, Some(3000));
    assert_eq!(t.scheduled.len(), 4);
    assert_eq!(t.scheduled[0], Some(base));
    assert_eq!(t.scheduled[1], Some(base));
    // The threshold job waits: no hour is cheap enough.
    assert_eq!(t.scheduled[2], None);
    // The high-priority job first, then the others in arrival order.
    assert_eq!(t.ready, vec![1, 0, 3]);
    // 2500 W fits the 3000 W budget; the next 2500 W does not; 400 W does.
    assert_eq!(t.launch, vec![1, 3]);

    // With one slot left only the first in line starts.
    let t = decide_tick(&pending, &learner, &prices, base, 1, 2, 100, None);
    assert_eq!(t.launch, vec![1]);
}

#[test]
fn tick_plans_with_the_learned_runtime() {
    let base = Utc.with_ymd_and_hms(2026, 7, 1, 0, 0, 0).unwrap().timestamp();
    // A one-hour job would start now; a three-hour one is cheaper later.
    let prices = series(base, &[100_000, 900_000, 200_000, 200_000, 200_000]);
    let j = job(1, Policy::CheapestWindow);
    let none = DurationLearner::from_history(vec![]);
    let t = decide_tick(&vec![j.clone()], &none, &prices, base, 0, 2, 0, None);
    assert_eq!(t.ready, vec![0]);
    let learner = DurationLearner::from_history(vec![
        ("task-1".to_string(), 150),
        ("task-1".to_string(), 150),
        ("task-1".to_string(), 150),
    ]);
    let t = decide_tick(&vec![j], &learner, &prices, base, 0, 2, 0, None);
    assert!(t.ready.is_empty());
    assert_eq!(t.scheduled[0], Some(base + 2 * HOUR));
}

#[test]
fn a_lost_claim_hands_its_slot_to_the_next_ready_job() {
    // Two free slots, three ready jobs: the first claim is lost, so the
    // second and third are launched.
    let mut l = Launcher::new(3, 1, 0, None);
    assert_eq!(l.free, 2);
    let won = [false, true, true];
    let mut launched = Vec::new();
    for (k, &ok) in won.iter().enumerate() {
        if l.wants(0) && ok {
            l.won(0);
            launched.push(k);
        }
    }
    assert_eq!(launched, vec![1, 2]);
    assert!(!l.wants(0));
}

#[test]
fn launching_respects_the_power_budget() {
    // 1 kW running under a 3 kW budget: a 2.5 kW job waits, a 1.5 kW job
    // goes, then a 1 kW job no longer fits.
    let mut l = Launcher::new(4, 1, 1000, Some(3000));
    assert!(!l.wants(2500));
    assert!(l.wants(1500));
    l.won(1500);
    assert_eq!(l.committed, 2500);
    assert_eq!(l.launched, 1);
    assert!(!l.wants(1000));
    assert!(l.wants(500));
    // With nothing committed, even an oversized job may start.
    let l = Launcher::new(1, 0, 0, Some(100));
    assert!(l.wants(5000));
}
