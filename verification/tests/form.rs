use chrono::{TimeZone, Utc};
use spotwatt::form::{
    is_blank, parse_deadline, parse_i64, parse_i64_text, validate, validate_request, CreateForm, CreateJobRequest,
    FormError, NumberField,
};
use spotwatt::job::{Policy, Priority};
use spotwatt::model::Repeat;

fn now() -> i64 {
    Utc.with_ymd_and_hms(2026, 7, 1, 12, 0, 0).unwrap().timestamp()
}

fn form() -> CreateForm {
    CreateForm {
        name: "  nightly backup ".to_string(),
        command: "restic backup /data".to_string(),
        policy: "cheapest".to_string(),
        threshold_nok: NumberField::Blank,
        duration_minutes: Some("45".to_string()),
        deadline: Some("2026-07-02T07:00".to_string()),
        power_watts: NumberField::Value(60),
        priority: Some("high".to_string()),
        repeat: Some("daily".to_string()),
    }
}

#[test]
fn parse_i64_reads_like_std() {
    assert_eq!(parse_i64_text("42"), Some(42));
    assert_eq!(parse_i64_text("-7"), Some(-7));
    assert_eq!(parse_i64_text("+7"), Some(7));
    assert_eq!(parse_i64_text("007"), Some(7));
    assert_eq!(parse_i64_text("9223372036854775807"), Some(i64::MAX));
    assert_eq!(parse_i64_text("-9223372036854775808"), Some(i64::MIN));
    assert_eq!(parse_i64_text("9223372036854775808"), None);
    assert_eq!(parse_i64_text("-"), None);
    assert_eq!(parse_i64_text(""), None);
    assert_eq!(parse_i64_text("1.5"), None);
    assert_eq!(parse_i64_text(" 1"), None);
    for s in ["0", "12", "-3", "+4", "x", "--1", "99999999999999999999"] {
        assert_eq!(parse_i64_text(s), s.parse::<i64>().ok(), "{s}");
    }
}

#[test]
fn parse_i64_field_trims_and_treats_blank_as_nothing() {
    assert_eq!(parse_i64(&Some("  90 ".to_string())), Some(90));
    assert_eq!(parse_i64(&Some("   ".to_string())), None);
    assert_eq!(parse_i64(&None), None);
    assert!(is_blank(&None));
    assert!(is_blank(&Some(" \t".to_string())));
    assert!(!is_blank(&Some(" x".to_string())));
}

#[test]
fn deadline_is_oslo_local_time() {
    // 07:00 in Oslo in summer is 05:00 UTC.
    assert_eq!(parse_deadline("2026-07-02T07:00"), Some(Utc.with_ymd_and_hms(2026, 7, 2, 5, 0, 0).unwrap().timestamp()));
    assert_eq!(parse_deadline(" 2026-01-02T07:00:30 "), Some(Utc.with_ymd_and_hms(2026, 1, 2, 6, 0, 30).unwrap().timestamp()));
    assert_eq!(parse_deadline("tomorrow"), None);
    assert_eq!(parse_deadline(""), None);
    // In the autumn fold the earlier instant is taken.
    assert_eq!(parse_deadline("2026-10-25T02:30"), Some(Utc.with_ymd_and_hms(2026, 10, 25, 0, 30, 0).unwrap().timestamp()));
    // In the spring gap there is none.
    assert_eq!(parse_deadline("2026-03-29T02:30"), None);
}

#[test]
fn a_good_form_becomes_a_job() {
    let job = validate(&form(), now()).unwrap();
    assert_eq!(job.name, "nightly backup");
    assert_eq!(job.command, "restic backup /data");
    assert_eq!(job.policy, Policy::CheapestWindow);
    assert_eq!(job.duration_minutes, 45);
    assert_eq!(job.deadline, Some(Utc.with_ymd_and_hms(2026, 7, 2, 5, 0, 0).unwrap().timestamp()));
    assert_eq!(job.power_watts, Some(60));
    assert_eq!(job.priority, Priority::High);
    assert_eq!(job.repeat, Repeat::Daily);
    assert_eq!(job.earliest_start, None);
    assert_eq!(job.created_at, now());
}

#[test]
fn blank_optional_fields_take_their_defaults() {
    let mut f = form();
    f.duration_minutes = Some("  ".to_string());
    f.deadline = None;
    f.power_watts = NumberField::Blank;
    f.priority = None;
    f.repeat = None;
    let job = validate(&f, now()).unwrap();
    assert_eq!(job.duration_minutes, 60);
    assert_eq!(job.deadline, None);
    assert_eq!(job.power_watts, None);
    assert_eq!(job.priority, Priority::Normal);
    assert_eq!(job.repeat, Repeat::Once);
}

#[test]
fn every_problem_is_reported_in_field_order() {
    let f = CreateForm {
        name: "   ".to_string(),
        command: "".to_string(),
        policy: "threshold".to_string(),
        threshold_nok: NumberField::Value(0),
        duration_minutes: Some("0".to_string()),
        deadline: Some("not a date".to_string()),
        power_watts: NumberField::Invalid,
        priority: None,
        repeat: None,
    };
    let errors = validate(&f, now()).unwrap_err();
    assert_eq!(
        errors,
        vec![
            FormError::NameRequired,
            FormError::CommandRequired,
            FormError::ThresholdRequired,
            FormError::DurationInvalid,
            FormError::DeadlineUnparseable,
            FormError::PowerInvalid,
        ]
    );
    let texts: Vec<String> = errors.iter().map(|e| e.message()).collect();
    assert_eq!(texts[0], "name is required");
    assert_eq!(texts[2], "the below-threshold policy needs a threshold (kr/kWh) above 0");
    assert_eq!(texts[3], "duration must be a whole number of minutes ≥ 1");
    assert_eq!(texts[5], "power must be a number of watts above 0");
}

#[test]
fn past_deadline_is_refused() {
    let mut f = form();
    f.deadline = Some("2026-07-01T08:00".to_string());
    assert_eq!(validate(&f, now()).unwrap_err(), vec![FormError::DeadlinePast]);
    assert_eq!(FormError::DeadlinePast.message(), "deadline is in the past");
    assert_eq!(FormError::DeadlineUnparseable.message(), "deadline could not be parsed");
}

#[test]
fn far_future_deadlines_are_accepted() {
    let mut f = form();
    f.deadline = Some("+40000-01-01T00:00".to_string());
    let job = validate(&f, now()).unwrap();
    let expected = chrono::NaiveDate::from_ymd_opt(40000, 1, 1).unwrap().and_hms_opt(0, 0, 0).unwrap().and_utc().timestamp() - 3600;
    assert_eq!(job.deadline, Some(expected));
    // Through the API, up to two hours before the calendar's last second.
    let mut r = request();
    r.deadline = Some(chrono::DateTime::<Utc>::MAX_UTC.timestamp() - 7200);
    assert!(validate_request(r, now()).is_ok());
    let mut r = request();
    r.deadline = Some(chrono::DateTime::<Utc>::MAX_UTC.timestamp());
    assert_eq!(validate_request(r, now()).unwrap_err(), vec![FormError::DeadlineOutOfRange]);
    // A deadline before the calendar's range is simply past.
    let mut r = request();
    r.deadline = Some(i64::MIN);
    assert_eq!(validate_request(r, now()).unwrap_err(), vec![FormError::DeadlinePast]);
}

#[test]
fn threshold_form_needs_a_positive_threshold() {
    let mut f = form();
    f.policy = "threshold".to_string();
    f.threshold_nok = NumberField::Value(1_200_000);
    assert_eq!(validate(&f, now()).unwrap().policy, Policy::Threshold { max_nok_per_kwh: 1_200_000 });
    f.threshold_nok = NumberField::Blank;
    assert_eq!(validate(&f, now()).unwrap_err(), vec![FormError::ThresholdRequired]);
    f.policy = "immediate".to_string();
    assert_eq!(validate(&f, now()).unwrap().policy, Policy::Immediate);
}

fn request() -> CreateJobRequest {
    CreateJobRequest {
        name: "transcode".to_string(),
        command: " ffmpeg -i in.mkv out.mkv ".to_string(),
        policy: Policy::Threshold { max_nok_per_kwh: 300_000 },
        duration_minutes: None,
        deadline: None,
        power_watts: Some(120),
        priority: Priority::Normal,
        repeat: Repeat::Once,
    }
}

#[test]
fn api_request_is_validated_like_the_form() {
    let job = validate_request(request(), now()).unwrap();
    assert_eq!(job.command, "ffmpeg -i in.mkv out.mkv");
    assert_eq!(job.duration_minutes, 60);
    assert_eq!(job.policy, Policy::Threshold { max_nok_per_kwh: 300_000 });

    let mut r = request();
    r.name = " ".to_string();
    r.policy = Policy::Threshold { max_nok_per_kwh: 0 };
    r.duration_minutes = Some(0);
    r.deadline = Some(now() - 1);
    r.power_watts = Some(-5);
    assert_eq!(
        validate_request(r, now()).unwrap_err(),
        vec![
            FormError::NameRequired,
            FormError::ThresholdRequired,
            FormError::DurationInvalid,
            FormError::DeadlinePast,
            FormError::PowerInvalid,
        ]
    );
}
