use chrono::{TimeZone, Utc};
use spotwatt::display::{
    layout_columns, chart_columns, command_hint, display_order, dur_label, elapsed_label, elapsed_secs, job_outlook,
    priority_label, status_class, weekday_abbrev, BarLabel, Blocked, ChartColumn, Load,
};
use spotwatt::form::CmdQuery;
use spotwatt::job::{Policy, Priority};
use spotwatt::learn::{DurationLearner, Estimate};
use spotwatt::model::{Job, JobStatus, Repeat};
use spotwatt::price::{PricePoint, PriceSeries};

const HOUR: i64 = 3600;

fn job(id: i64, status: JobStatus) -> Job {
    Job {
        id,
        name: format!("job {id}"),
        command: "restic backup /data".to_string(),
        policy: Policy::CheapestWindow,
        duration_minutes: 60,
        deadline: None,
        power_watts: None,
        priority: Priority::Normal,
        repeat: Repeat::Once,
        earliest_start: None,
        status,
        scheduled_start: None,
        created_at: 0,
        started_at: None,
        finished_at: None,
        exit_code: None,
        output: None,
        est_cost_nok: None,
        baseline_cost_nok: None,
    }
}

fn series(start: i64, prices: &[i64]) -> PriceSeries {
    let pts = prices
        .iter()
        .enumerate()
        .map(|(i, &p)| {
            let s = start + HOUR * i as i64;
            PricePoint { start: s, end: s + HOUR, nok_per_kwh: p, eur_per_kwh: p / 11 }
        })
        .collect();
    PriceSeries::new(pts)
}

#[test]
fn labels() {
    assert_eq!(status_class(JobStatus::Cancelled), "cancelled");
    assert_eq!(status_class(JobStatus::Running), "running");
    assert_eq!(priority_label(Priority::Critical), "critical");
    assert_eq!(priority_label(Priority::Low), "low");
    assert_eq!(weekday_abbrev(0), "mon");
    assert_eq!(weekday_abbrev(6), "sun");
}

#[test]
fn duration_labels() {
    assert_eq!(dur_label(45), "45 min");
    assert_eq!(dur_label(60), "1 h");
    assert_eq!(dur_label(120), "2 h");
    assert_eq!(dur_label(90), "1 h 30 min");
    assert_eq!(dur_label(0), "0 min");
    assert_eq!(dur_label(-5), "-5 min");
}

#[test]
fn elapsed_labels() {
    assert_eq!(elapsed_label(42), "42s");
    assert_eq!(elapsed_label(120), "2 min");
    assert_eq!(elapsed_label(125), "2 min 5s");
    assert_eq!(elapsed_label(3600), "1 h");
    assert_eq!(elapsed_label(5400), "1 h 30 min");
    assert_eq!(elapsed_label(3659), "1 h");
}

#[test]
fn elapsed_needs_both_instants_in_order() {
    let mut j = job(1, JobStatus::Completed);
    assert_eq!(elapsed_secs(&j), None);
    j.started_at = Some(1_000);
    j.finished_at = Some(1_330);
    assert_eq!(elapsed_secs(&j), Some(330));
    j.finished_at = Some(900);
    assert_eq!(elapsed_secs(&j), None);
}

#[test]
fn running_then_pending_then_history() {
    let jobs = vec![
        job(1, JobStatus::Completed),
        job(2, JobStatus::Pending),
        job(3, JobStatus::Running),
        job(4, JobStatus::Failed),
        job(5, JobStatus::Pending),
    ];
    assert_eq!(display_order(&jobs), vec![2, 1, 4, 0, 3]);
}

#[test]
fn load_counts_running_jobs_and_their_draw() {
    let mut a = job(1, JobStatus::Running);
    a.power_watts = Some(450);
    let b = job(2, JobStatus::Running);
    let mut c = job(3, JobStatus::Pending);
    c.power_watts = Some(900);
    let load = Load::from_jobs(&vec![a, b, c], 2, Some(1000));
    assert_eq!(load.running, 2);
    assert_eq!(load.committed_watts, 450);
}

#[test]
fn blocked_by_slots_then_by_power() {
    let mut j = job(1, JobStatus::Pending);
    j.power_watts = Some(900);
    let full = Load { running: 2, max_jobs: 2, committed_watts: 0, budget_watts: None };
    assert_eq!(full.blocked_reason(&j), Some(Blocked::NoFreeSlot { running: 2, max_jobs: 2 }));
    let hot = Load { running: 1, max_jobs: 2, committed_watts: 450, budget_watts: Some(1000) };
    assert_eq!(hot.blocked_reason(&j), Some(Blocked::NoPowerHeadroom { committed_watts: 450, budget_watts: 1000 }));
    j.power_watts = Some(500);
    assert_eq!(hot.blocked_reason(&j), None);
    j.power_watts = None;
    assert_eq!(hot.blocked_reason(&j), None);
}

#[test]
fn outlook_of_a_pending_job() {
    let base = Utc.with_ymd_and_hms(2026, 7, 1, 0, 0, 0).unwrap().timestamp();
    let prices = series(base, &[1_000_000, 200_000, 1_000_000]);
    let mut j = job(1, JobStatus::Pending);
    j.power_watts = Some(1000);
    let load = Load { running: 0, max_jobs: 2, committed_watts: 0, budget_watts: None };
    let o = job_outlook(&j, None, &prices, &load, base);
    let d = o.decision.unwrap();
    assert!(!d.run_now);
    assert_eq!(d.start_at, Some(base + HOUR));
    assert_eq!(o.finish, Some(base + 2 * HOUR));
    // 1 kWh at 0.20 planned against 1 kWh at 1.00 now.
    assert_eq!(o.projected, Some((800_000, 200_000)));
    assert_eq!(o.queued, None);

    // The learned runtime is what gets planned.
    let learned = Estimate { minutes: 120, runs: 5, exact: true };
    let o = job_outlook(&j, Some(learned), &prices, &load, base);
    assert_eq!(o.effective_minutes, 120);
    assert_eq!(o.decision.unwrap().start_at, Some(base));
    assert_eq!(o.finish, Some(base + 2 * HOUR));
}

#[test]
fn outlook_of_a_running_job_and_a_queued_one() {
    let base = Utc.with_ymd_and_hms(2026, 7, 1, 0, 0, 0).unwrap().timestamp();
    let prices = series(base, &[100_000, 900_000]);
    let mut r = job(1, JobStatus::Running);
    r.started_at = Some(base - 600);
    let idle = Load { running: 0, max_jobs: 1, committed_watts: 0, budget_watts: None };
    let o = job_outlook(&r, None, &prices, &idle, base);
    assert!(o.decision.is_none());
    assert_eq!(o.finish, Some(base - 600 + HOUR));

    let p = job(2, JobStatus::Pending);
    let busy = Load { running: 1, max_jobs: 1, committed_watts: 0, budget_watts: None };
    let o = job_outlook(&p, None, &prices, &busy, base);
    assert!(o.decision.unwrap().run_now);
    assert_eq!(o.queued, Some(Blocked::NoFreeSlot { running: 1, max_jobs: 1 }));
}

#[test]
fn chart_starts_at_the_current_hour_and_marks_day_changes() {
    // 20:00 UTC on 1 July is 22:00 in Oslo; the Oslo date flips two bars on.
    let base = Utc.with_ymd_and_hms(2026, 7, 1, 20, 0, 0).unwrap().timestamp();
    let prices = series(base - HOUR, &[1, 2, 3, 4, 5, 6]);
    let cols = chart_columns(&prices, base);
    assert_eq!(
        cols,
        vec![
            ChartColumn::Bar { point: 1, is_now: true, label: BarLabel::Now },
            ChartColumn::Bar { point: 2, is_now: false, label: BarLabel::Blank },
            ChartColumn::DayBreak { weekday: 3 },
            ChartColumn::Bar { point: 3, is_now: false, label: BarLabel::Hour(0) },
            ChartColumn::Bar { point: 4, is_now: false, label: BarLabel::Blank },
            ChartColumn::Bar { point: 5, is_now: false, label: BarLabel::Blank },
        ]
    );
}

#[test]
fn command_hint_for_typed_commands() {
    let learner = DurationLearner::from_history(vec![
        ("ffmpeg -i a.mkv x.mkv".to_string(), 30),
        ("ffmpeg -i b.mkv y.mkv".to_string(), 34),
        ("ffmpeg -i c.mkv z.mkv".to_string(), 32),
    ]);
    let blank = CmdQuery { command: Some("   ".to_string()) };
    assert!(command_hint(&blank, Some(&learner)).is_none());

    let q = CmdQuery { command: Some(" ffmpeg -i d.mkv w.mkv ".to_string()) };
    let h = command_hint(&q, Some(&learner)).unwrap();
    assert!(!h.compound);
    let e = h.estimate.unwrap();
    assert!(!e.exact);
    assert_eq!(e.runs, 3);
    assert_eq!(h.signature.as_deref(), Some("ffmpeg"));

    let c = CmdQuery { command: Some("make && make install".to_string()) };
    let h = command_hint(&c, None).unwrap();
    assert!(h.compound);
    assert!(h.estimate.is_none());
}

#[test]
fn chart_layout_from_given_clocks() {
    let prices = series(0, &[5, 6, 7, 8]);
    // (date, hour, weekday) for each point.
    let clocks = vec![(10, 21, 2), (10, 22, 2), (10, 23, 2), (11, 0, 3)];
    let cols = layout_columns(&prices, &clocks, 3600);
    assert_eq!(
        cols,
        vec![
            ChartColumn::Bar { point: 1, is_now: true, label: BarLabel::Now },
            ChartColumn::Bar { point: 2, is_now: false, label: BarLabel::Blank },
            ChartColumn::DayBreak { weekday: 3 },
            ChartColumn::Bar { point: 3, is_now: false, label: BarLabel::Hour(0) },
        ]
    );
    // Less than two hours ahead, a third hour gets no label.
    let cols = layout_columns(&prices, &clocks, 3600 + 1);
    assert_eq!(cols[3], ChartColumn::Bar { point: 3, is_now: false, label: BarLabel::Blank });
}
