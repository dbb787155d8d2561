use chrono::{TimeZone, Utc};
use spotwatt::cli::{
    add_request, contains_text, friendly_connect_error, indent, parse, resolve_deadline, truncate, AddArgs, AddError,
    DeadlineError, PolicyArg,
};
use spotwatt::job::{Policy, Priority};
use spotwatt::model::Repeat;

fn now() -> i64 {
    Utc::now().timestamp()
}

#[test]
fn rejects_garbage() {
    assert!(parse("not a time", now()).is_err());
}

#[test]
fn accepts_rfc3339() {
    let dt = parse("2030-01-01T12:00:00Z", now()).unwrap();
    assert_eq!(Utc.timestamp_opt(dt, 0).unwrap().to_rfc3339(), "2030-01-01T12:00:00+00:00");
}

#[test]
fn accepts_hh_mm_and_lands_in_the_future() {
    let n = now();
    let dt = parse("23:59", n).unwrap();
    assert!(dt > n);
}

#[test]
fn hh_mm_before_now_rolls_to_tomorrow() {
    // 2026-07-01 12:00 UTC is 14:00 in Oslo (CEST).
    let n = Utc.with_ymd_and_hms(2026, 7, 1, 12, 0, 0).unwrap().timestamp();
    let later_today = parse("15:30", n).unwrap();
    assert_eq!(later_today, Utc.with_ymd_and_hms(2026, 7, 1, 13, 30, 0).unwrap().timestamp());
    let earlier = parse("09:00", n).unwrap();
    assert_eq!(earlier, Utc.with_ymd_and_hms(2026, 7, 2, 7, 0, 0).unwrap().timestamp());
}

#[test]
fn a_passed_clock_time_keeps_its_wall_clock_across_a_dst_change() {
    // 2026-03-28 13:00 Oslo (CET); clocks go forward that night, so 09:00 on
    // the 29th is 07:00 UTC, not 24 hours after 09:00 on the 28th.
    let n = Utc.with_ymd_and_hms(2026, 3, 28, 12, 0, 0).unwrap().timestamp();
    let t = parse("09:00", n).unwrap();
    assert_eq!(t, Utc.with_ymd_and_hms(2026, 3, 29, 7, 0, 0).unwrap().timestamp());
    // And into winter time: 09:00 on 2026-10-25 is 08:00 UTC.
    let n = Utc.with_ymd_and_hms(2026, 10, 24, 12, 0, 0).unwrap().timestamp();
    let t = parse("09:00", n).unwrap();
    assert_eq!(t, Utc.with_ymd_and_hms(2026, 10, 25, 8, 0, 0).unwrap().timestamp());
}

#[test]
fn a_clock_time_in_the_spring_gap_moves_to_the_next_day() {
    // Clocks jump from 02:00 to 03:00 in Oslo on 2026-03-29, so 02:30 that
    // day does not exist: the next occurrence is 02:30 on the 30th (CEST).
    let n = Utc.with_ymd_and_hms(2026, 3, 29, 0, 30, 0).unwrap().timestamp();
    assert_eq!(parse("02:30", n).unwrap(), Utc.with_ymd_and_hms(2026, 3, 30, 0, 30, 0).unwrap().timestamp());
    // Asked the evening before, the gap is tomorrow's: still the 30th.
    let n = Utc.with_ymd_and_hms(2026, 3, 28, 20, 0, 0).unwrap().timestamp();
    assert_eq!(parse("02:30", n).unwrap(), Utc.with_ymd_and_hms(2026, 3, 30, 0, 30, 0).unwrap().timestamp());
}

#[test]
fn a_clock_time_in_the_autumn_fold_takes_its_first_occurrence() {
    // Clocks fall back from 03:00 to 02:00 in Oslo on 2026-10-25, so 02:30
    // happens twice: first at 00:30 UTC (CEST), then at 01:30 UTC (CET).
    let n = Utc.with_ymd_and_hms(2026, 10, 24, 20, 0, 0).unwrap().timestamp();
    assert_eq!(parse("02:30", n).unwrap(), Utc.with_ymd_and_hms(2026, 10, 25, 0, 30, 0).unwrap().timestamp());
    // Between the two, the second one is next.
    let n = Utc.with_ymd_and_hms(2026, 10, 25, 1, 0, 0).unwrap().timestamp();
    assert_eq!(parse("02:30", n).unwrap(), Utc.with_ymd_and_hms(2026, 10, 25, 1, 30, 0).unwrap().timestamp());
}

#[test]
fn unparseable_deadline_reports_the_trimmed_input() {
    match parse("  tomorrow  ", now()) {
        Err(DeadlineError::Unparseable { input }) => assert_eq!(input, "tomorrow"),
        other => panic!("unexpected {other:?}"),
    }
}

#[test]
fn truncate_keeps_short_text_and_marks_cuts() {
    assert_eq!(truncate("backup", 24), "backup");
    assert_eq!(truncate("abcdef", 4), "abc…");
    assert_eq!(truncate("abcdef", 6), "abcdef");
    assert_eq!(truncate("abcdef", 0), "…");
    assert_eq!(truncate("æøåæøå", 3), "æø…");
}

#[test]
fn indent_prefixes_every_line() {
    assert_eq!(indent("a\nb", "    "), "    a\n    b");
    assert_eq!(indent("a\r\nb\n", "> "), "> a\n> b");
    assert_eq!(indent("", "> "), "");
    assert_eq!(indent("x\n\ny", "-"), "-x\n-\n-y");
}

#[test]
fn contains_text_finds_substrings() {
    assert!(contains_text("error connecting to spotwatt server: refused", "connecting to spotwatt server"));
    assert!(!contains_text("parsing job list", "connecting to spotwatt server"));
    assert!(contains_text("abc", ""));
}

#[test]
fn connection_failures_get_a_pointed_message() {
    let chain = vec!["connecting to spotwatt server".to_string(), "tcp connect error".to_string()];
    let msg = friendly_connect_error(&chain, "http://127.0.0.1:8080");
    assert!(msg.starts_with("couldn't reach a spotwatt server at http://127.0.0.1:8080 — is it running?"));
    let other = vec!["404 Not Found: no job with that id".to_string()];
    assert_eq!(friendly_connect_error(&other, "http://x"), "404 Not Found: no job with that id");
}

fn args() -> AddArgs {
    AddArgs {
        name: "backup".to_string(),
        policy: PolicyArg::CheapestWindow,
        threshold: None,
        now: false,
        duration: Some(45),
        deadline: None,
        power: Some(60),
        priority: Priority::High,
        daily: true,
        cmd: vec!["rsync".to_string(), "-a".to_string(), "/data".to_string()],
    }
}

#[test]
fn add_builds_the_request() {
    let req = add_request(&args(), now()).unwrap();
    assert_eq!(req.command, "rsync -a /data");
    assert_eq!(req.policy, Policy::CheapestWindow);
    assert_eq!(req.duration_minutes, Some(45));
    assert_eq!(req.power_watts, Some(60));
    assert_eq!(req.priority, Priority::High);
    assert_eq!(req.repeat, Repeat::Daily);
}

#[test]
fn add_threshold_needs_a_threshold() {
    let mut a = args();
    a.policy = PolicyArg::Threshold;
    assert!(matches!(add_request(&a, now()), Err(AddError::ThresholdMissing)));
    a.threshold = Some(300_000);
    assert_eq!(add_request(&a, now()).unwrap().policy, Policy::Threshold { max_nok_per_kwh: 300_000 });
    a.now = true;
    assert_eq!(add_request(&a, now()).unwrap().policy, Policy::Immediate);
}

#[test]
fn add_reports_a_bad_deadline() {
    let mut a = args();
    a.deadline = Some("soon".to_string());
    assert!(matches!(add_request(&a, now()), Err(AddError::Deadline(_))));
}

#[test]
fn resolving_a_deadline_from_its_readings() {
    let now = 1_000_000;
    let one = |t: i64| Some((t, t));
    // A full timestamp wins.
    assert_eq!(resolve_deadline("x".into(), Some(5), Some((9, 0, 0)), one(7), one(8), one(9), now).unwrap(), 5);
    // Today's time still ahead.
    assert_eq!(resolve_deadline("x".into(), None, Some((9, 0, 0)), one(1_000_600), one(1_087_000), one(1_173_400), now).unwrap(), 1_000_600);
    // Today's time already past: tomorrow's instant for it.
    assert_eq!(resolve_deadline("x".into(), None, Some((9, 0, 0)), one(999_000), one(1_081_800), one(1_168_200), now).unwrap(), 1_081_800);
    // The same instant as now counts as past.
    assert_eq!(resolve_deadline("x".into(), None, Some((9, 0, 0)), one(now), one(now + 86_400), one(now + 172_800), now).unwrap(), now + 86_400);
    // An autumn fold: the earlier instant if still ahead, else the later one.
    assert_eq!(resolve_deadline("x".into(), None, Some((2, 30, 0)), Some((1_000_100, 1_003_700)), one(1_086_500), one(1_172_900), now).unwrap(), 1_000_100);
    assert_eq!(resolve_deadline("x".into(), None, Some((2, 30, 0)), Some((998_000, 1_001_600)), one(1_084_400), one(1_170_800), now).unwrap(), 1_001_600);
    // Tomorrow's fold, today's passed: tomorrow's earlier instant.
    assert_eq!(resolve_deadline("x".into(), None, Some((2, 30, 0)), one(999_000), Some((1_081_800, 1_085_400)), one(1_171_800), now).unwrap(), 1_081_800);
    // A spring gap today or tomorrow: the next date that has the time.
    assert_eq!(resolve_deadline("x".into(), None, Some((2, 30, 0)), None, one(1_081_800), one(1_168_200), now).unwrap(), 1_081_800);
    assert_eq!(resolve_deadline("x".into(), None, Some((2, 30, 0)), one(999_000), None, one(1_168_200), now).unwrap(), 1_168_200);
    // Nothing after now on any of the three dates.
    assert!(matches!(resolve_deadline("x".into(), None, Some((2, 30, 0)), None, None, one(10), now), Err(DeadlineError::NoOccurrence)));
    match resolve_deadline("soon".into(), None, None, None, None, None, now) {
        Err(DeadlineError::Unparseable { input }) => assert_eq!(input, "soon"),
        other => panic!("unexpected {other:?}"),
    }
}
