//! Turning a submitted job — the dashboard's form or the JSON API's typed
//! request — into a new job, or into every reason it can't be one.

use vstd::prelude::*;
use vstd::string::*;

use crate::job::{Policy, Priority};
use crate::model::{
    priority_from_text, spec_priority_from_text, spec_repeat_from_db, NewJob, Repeat,
};
use crate::text::{spec_trim, str_eq, trim};
use crate::time::{naive_datetime_in, oslo_from_local, oslo_local_instants, parse_naive_datetime};
use crate::units::{valid_time, MAX_TIME};

verus! {

// ---------------------------------------------------------------------------
// Integers
// ---------------------------------------------------------------------------

pub open spec fn is_ascii_digit(c: char) -> bool {
    '0' <= c && c <= '9'
}

/// The value of a run of decimal digits.
pub open spec fn digits_value(s: Seq<char>) -> int
    decreases s.len(),
{
    if s.len() == 0 {
        0
    } else {
        10 * digits_value(s.drop_last()) + (s.last() as int - '0' as int)
    }
}

/// `s` without a leading sign.
pub open spec fn unsigned_part(s: Seq<char>) -> Seq<char> {
    if s.len() > 0 && (s[0] == '-' || s[0] == '+') { s.drop_first() } else { s }
}

pub open spec fn all_digits(d: Seq<char>) -> bool {
    forall|i: int| 0 <= i < d.len() ==> is_ascii_digit(#[trigger] d[i])
}

/// What `i64::from_str` gives: an optional `+` or `-`, then one or more
/// ASCII digits, within the range of `i64`.
pub open spec fn spec_parse_i64(s: Seq<char>) -> Option<i64> {
    let neg = s.len() > 0 && s[0] == '-';
    let digits = unsigned_part(s);
    if digits.len() == 0 || !all_digits(digits) {
        None
    } else {
        let v = if neg { -digits_value(digits) } else { digits_value(digits) };
        if i64::MIN <= v <= i64::MAX { Some(v as i64) } else { None }
    }
}

proof fn lemma_digits_value_grows(s: Seq<char>, k: int)
    requires
        0 <= k <= s.len(),
        forall|i: int| 0 <= i < s.len() ==> is_ascii_digit(#[trigger] s[i]),
    ensures
        0 <= digits_value(s.subrange(0, k)) <= digits_value(s),
    decreases s.len() - k,
{
    if k < s.len() {
        lemma_digits_value_grows(s, k + 1);
        let p = s.subrange(0, k + 1);
        assert(p.drop_last() =~= s.subrange(0, k));
        assert(is_ascii_digit(s[k]));
    } else {
        assert(s.subrange(0, k) =~= s);
    }
    lemma_digits_value_nonneg(s);
}

pub proof fn lemma_digits_value_nonneg(s: Seq<char>)
    requires
        forall|i: int| 0 <= i < s.len() ==> is_ascii_digit(#[trigger] s[i]),
    ensures
        digits_value(s) >= 0,
    decreases s.len(),
{
    if s.len() > 0 {
        let t = s.drop_last();
        assert forall|i: int| 0 <= i < t.len() implies is_ascii_digit(#[trigger] t[i]) by {
            assert(t[i] == s[i]);
        }
        lemma_digits_value_nonneg(t);
        assert(is_ascii_digit(s[s.len() - 1]));
    }
}

/// Parse a decimal integer as `i64::from_str` does.
pub fn parse_i64_text(s: &str) -> (r: Option<i64>)
    ensures
        r == spec_parse_i64(s@),
{
    let n = s.unicode_len();
    if n == 0 {
        return None;
    }
    let first = s.get_char(0);
    let neg = first == '-';
    let start: usize = if first == '-' || first == '+' { 1 } else { 0 };
    let ghost digits = unsigned_part(s@);
    if start == n {
        return None;
    }
    // Magnitude so far, or `over` once it has passed 2^63.
    let limit: u128 = 0x8000_0000_0000_0000;
    let mut acc: u128 = 0;
    let mut over = false;
    let mut i: usize = start;
    proof {
        assert(digits == s@.subrange(start as int, n as int));
        assert(digits.subrange(0, 0) =~= Seq::<char>::empty());
    }
    while i < n
        invariant
            n == s@.len(),
            0 <= start <= i <= n,
            start < n,
            digits == s@.subrange(start as int, n as int),
            digits == unsigned_part(s@),
            limit == 0x8000_0000_0000_0000u128,
            forall|k: int| start <= k < i ==> is_ascii_digit(#[trigger] s@[k]),
            !over ==> acc == digits_value(digits.subrange(0, i - start)) && acc <= limit,
            over ==> digits_value(digits.subrange(0, i - start)) > limit,
        decreases n - i,
    {
        let c = s.get_char(i);
        if !('0' <= c && c <= '9') {
            proof {
                assert(digits[i - start] == c);
                assert(!is_ascii_digit(digits[i - start]));
                assert(!(forall|k: int| 0 <= k < digits.len() ==> is_ascii_digit(#[trigger] digits[k])));
            }
            return None;
        }
        let d = (c as u32 - '0' as u32) as u128;
        proof {
            let p = digits.subrange(0, i + 1 - start);
            assert(p.drop_last() =~= digits.subrange(0, i - start));
            assert(p.last() == c);
            assert forall|k: int| 0 <= k < p.len() implies is_ascii_digit(#[trigger] p[k]) by {
                assert(p[k] == s@[start + k]);
            }
            lemma_digits_value_nonneg(p.drop_last());
        }
        if !over {
            let next = acc * 10 + d;
            if next > limit {
                over = true;
            } else {
                acc = next;
            }
        }
        i = i + 1;
    }
    proof {
        assert(digits.subrange(0, n - start) =~= digits);
        assert forall|k: int| 0 <= k < digits.len() implies is_ascii_digit(#[trigger] digits[k]) by {
            assert(digits[k] == s@[start + k]);
        }
    }
    if over {
        return None;
    }
    if neg {
        let v: i128 = -(acc as i128);
        Some(v as i64)
    } else if acc < limit {
        Some(acc as i64)
    } else {
        None
    }
}

/// A form field read as a whole number: blank (absent or only whitespace)
/// reads as nothing, as does text that is not one.
pub open spec fn spec_parse_i64_field(o: Option<String>) -> Option<i64> {
    match o {
        Some(s) => if spec_trim(s@).len() == 0 { None } else { spec_parse_i64(spec_trim(s@)) },
        None => None,
    }
}

/// Parse an optional form field as a whole number.
pub fn parse_i64(o: &Option<String>) -> (r: Option<i64>)
    ensures
        r == spec_parse_i64_field(*o),
{
    match o {
        Some(s) => {
            let t = trim(s.as_str());
            if t.as_str().unicode_len() == 0 {
                None
            } else {
                parse_i64_text(t.as_str())
            }
        },
        None => None,
    }
}

/// A form field that is absent or holds only whitespace.
pub open spec fn spec_is_blank_field(o: Option<String>) -> bool {
    match o {
        Some(s) => spec_trim(s@).len() == 0,
        None => true,
    }
}

/// Whether an optional form field is absent or only whitespace.
pub fn is_blank(o: &Option<String>) -> (b: bool)
    ensures
        b == spec_is_blank_field(*o),
{
    match o {
        Some(s) => trim(s.as_str()).as_str().unicode_len() == 0,
        None => true,
    }
}

// ---------------------------------------------------------------------------
// Deadlines
// ---------------------------------------------------------------------------

/// The instant a `datetime-local` value (Oslo wall-clock time, with or
/// without seconds) denotes: the earlier one in the autumn fold, none in the
/// spring gap, for text that is not such a value, or for an instant outside
/// the handled range.
pub open spec fn spec_parse_deadline(s: Seq<char>) -> Option<i64> {
    let t = spec_trim(s);
    if t.len() == 0 {
        None
    } else {
        let parsed = match naive_datetime_in(t, "%Y-%m-%dT%H:%M"@) {
            Some(x) => Some(x),
            None => naive_datetime_in(t, "%Y-%m-%dT%H:%M:%S"@),
        };
        match parsed {
            Some((day, h, m, sec)) => match oslo_from_local(day, h, m, sec) {
                Some((first, _)) => Some(first),
                None => None,
            },
            None => None,
        }
    }
}

/// Parse an `<input type="datetime-local">` value (Oslo local time) to a
/// Unix instant.
pub fn parse_deadline(s: &str) -> (r: Option<i64>)
    ensures
        r == spec_parse_deadline(s@),
{
    let t = trim(s);
    if t.as_str().unicode_len() == 0 {
        return None;
    }
    let parsed = match parse_naive_datetime(t.as_str(), "%Y-%m-%dT%H:%M") {
        Some(x) => Some(x),
        None => parse_naive_datetime(t.as_str(), "%Y-%m-%dT%H:%M:%S"),
    };
    match parsed {
        Some((day, h, m, sec)) => match oslo_local_instants(day, h, m, sec) {
            Some((first, _)) => Some(first),
            None => None,
        },
        None => None,
    }
}

// ---------------------------------------------------------------------------
// Validation
// ---------------------------------------------------------------------------

/// A number entered in a form, already read into the library's fixed-point
/// unit (µNOK/kWh for a threshold, watts for a power draw).
#[derive(Debug, Clone, Copy, PartialEq, Eq, Structural)]
pub enum NumberField {
    /// Absent, or only whitespace.
    Blank,
    /// Text that is not a number (or not a real one).
    Invalid,
    Value(i64),
}

/// Why a submitted job was refused.
#[derive(Debug, Clone, Copy, PartialEq, Eq, Structural)]
pub enum FormError {
    NameRequired,
    CommandRequired,
    ThresholdRequired,
    DurationInvalid,
    DeadlineUnparseable,
    DeadlinePast,
    /// A deadline in the last two hours of the calendar's range (year
    /// 262142), which has no Oslo wall-clock time to show it by.
    DeadlineOutOfRange,
    PowerInvalid,
}

pub open spec fn form_error_text(e: FormError) -> Seq<char> {
    match e {
        FormError::NameRequired => "name is required"@,
        FormError::CommandRequired => "command is required"@,
        FormError::ThresholdRequired => "the below-threshold policy needs a threshold (kr/kWh) above 0"@,
        FormError::DurationInvalid => "duration must be a whole number of minutes ≥ 1"@,
        FormError::DeadlineUnparseable => "deadline could not be parsed"@,
        FormError::DeadlinePast => "deadline is in the past"@,
        FormError::DeadlineOutOfRange => "deadline is beyond the last date the calendar can show"@,
        FormError::PowerInvalid => "power must be a number of watts above 0"@,
    }
}

impl FormError {
    /// The message shown to whoever submitted the job.
    pub fn message(&self) -> (r: String)
        ensures
            r@ == form_error_text(*self),
    {
        let s = match self {
            FormError::NameRequired => "name is required",
            FormError::CommandRequired => "command is required",
            FormError::ThresholdRequired => "the below-threshold policy needs a threshold (kr/kWh) above 0",
            FormError::DurationInvalid => "duration must be a whole number of minutes ≥ 1",
            FormError::DeadlineUnparseable => "deadline could not be parsed",
            FormError::DeadlinePast => "deadline is in the past",
            FormError::DeadlineOutOfRange => "deadline is beyond the last date the calendar can show",
            FormError::PowerInvalid => "power must be a number of watts above 0",
        };
        String::from_str(s)
    }
}

/// The dashboard's add-job form, as submitted. Numbers with a fractional
/// part arrive already read into fixed point.
#[derive(Debug, Clone)]
pub struct CreateForm {
    pub name: String,
    pub command: String,
    pub policy: String,
    pub threshold_nok: NumberField,
    pub duration_minutes: Option<String>,
    pub deadline: Option<String>,
    pub power_watts: NumberField,
    pub priority: Option<String>,
    pub repeat: Option<String>,
}

/// The live command-hint query of the add-job form.
#[derive(Debug, Clone)]
pub struct CmdQuery {
    pub command: Option<String>,
}

/// The job's minutes, when an error must be reported (`None`), else the
/// minutes: a whole number of at least one, or 60 when left blank.
pub open spec fn form_duration(o: Option<String>) -> Option<i64> {
    match spec_parse_i64_field(o) {
        Some(m) => if m >= 1 { Some(m) } else { None },
        None => if spec_is_blank_field(o) { Some(60) } else { None },
    }
}

/// The deadline of a form: `Ok(None)` when blank, `Ok(Some(t))` when it
/// parses to a future instant in range, else the reason it can't be used.
pub open spec fn form_deadline(o: Option<String>, now: int) -> Result<Option<i64>, FormError> {
    let parsed = match o {
        Some(s) => spec_parse_deadline(s@),
        None => None,
    };
    match parsed {
        None => if spec_is_blank_field(o) { Ok(None) } else { Err(FormError::DeadlineUnparseable) },
        Some(t) => if t <= now {
            Err(FormError::DeadlinePast)
        } else if !valid_time(t as int) {
            Err(FormError::DeadlineOutOfRange)
        } else {
            Ok(Some(t))
        },
    }
}

pub open spec fn form_policy(policy: Seq<char>, threshold: NumberField) -> Option<Policy> {
    if policy == "immediate"@ {
        Some(Policy::Immediate)
    } else if policy == "threshold"@ {
        match threshold {
            NumberField::Value(v) => if v > 0 { Some(Policy::Threshold { max_nok_per_kwh: v }) } else { None },
            _ => None,
        }
    } else {
        Some(Policy::CheapestWindow)
    }
}

pub open spec fn form_power(p: NumberField) -> Result<Option<i64>, FormError> {
    match p {
        NumberField::Value(w) => if w > 0 { Ok(Some(w)) } else { Err(FormError::PowerInvalid) },
        NumberField::Blank => Ok(None),
        NumberField::Invalid => Err(FormError::PowerInvalid),
    }
}

pub open spec fn opt_text(o: Option<String>, default: Seq<char>) -> Seq<char> {
    match o {
        Some(s) => s@,
        None => default,
    }
}

/// Every reason the form can't become a job, in the order the fields appear.
pub open spec fn form_errors(form: CreateForm, now: int) -> Seq<FormError> {
    let e1 = if spec_trim(form.name@).len() == 0 { seq![FormError::NameRequired] } else { Seq::empty() };
    let e2 = if spec_trim(form.command@).len() == 0 { seq![FormError::CommandRequired] } else { Seq::empty() };
    let e3 = if form_policy(form.policy@, form.threshold_nok) is None { seq![FormError::ThresholdRequired] } else { Seq::empty() };
    let e4 = if form_duration(form.duration_minutes) is None { seq![FormError::DurationInvalid] } else { Seq::empty() };
    let e5 = match form_deadline(form.deadline, now) {
        Err(e) => seq![e],
        Ok(_) => Seq::empty(),
    };
    let e6 = match form_power(form.power_watts) {
        Err(e) => seq![e],
        Ok(_) => Seq::empty(),
    };
    e1 + e2 + e3 + e4 + e5 + e6
}

/// The job a valid form describes.
pub open spec fn form_job(form: CreateForm, now: int) -> NewJob {
    NewJob {
        name: form.name,
        command: form.command,
        policy: form_policy(form.policy@, form.threshold_nok)->0,
        duration_minutes: form_duration(form.duration_minutes)->0,
        deadline: form_deadline(form.deadline, now)->Ok_0,
        power_watts: form_power(form.power_watts)->Ok_0,
        priority: spec_priority_from_text(opt_text(form.priority, "normal"@)),
        repeat: spec_repeat_from_db(opt_text(form.repeat, "none"@)),
        earliest_start: None,
        created_at: now as i64,
    }
}

fn push_if(errors: &mut Vec<FormError>, cond: bool, e: FormError)
    ensures
        final(errors)@ == old(errors)@ + (if cond { seq![e] } else { Seq::<FormError>::empty() }),
{
    if cond {
        errors.push(e);
    } else {
        assert(old(errors)@ + Seq::<FormError>::empty() =~= old(errors)@);
    }
}

/// Turn the raw form into a new job, or every reason it can't be one. Names
/// and commands are trimmed; a blank duration means 60 minutes; the deadline
/// is Oslo local time and must lie ahead of `now`.
pub fn validate(form: &CreateForm, now: i64) -> (r: Result<NewJob, Vec<FormError>>)
    requires
        valid_time(now as int),
    ensures
        match r {
            Ok(job) => {
                &&& form_errors(*form, now as int).len() == 0
                &&& job.name@ == spec_trim(form.name@)
                &&& job.command@ == spec_trim(form.command@)
                &&& job.policy == form_job(*form, now as int).policy
                &&& job.duration_minutes == form_job(*form, now as int).duration_minutes
                &&& job.deadline == form_job(*form, now as int).deadline
                &&& job.power_watts == form_job(*form, now as int).power_watts
                &&& job.priority == form_job(*form, now as int).priority
                &&& job.repeat == form_job(*form, now as int).repeat
                &&& job.earliest_start is None
                &&& job.created_at == now
            },
            Err(errors) => errors@ == form_errors(*form, now as int) && errors@.len() > 0,
        },
{
    let mut errors: Vec<FormError> = Vec::new();
    let name = trim(form.name.as_str());
    let command = trim(form.command.as_str());
    push_if(&mut errors, name.as_str().unicode_len() == 0, FormError::NameRequired);
    push_if(&mut errors, command.as_str().unicode_len() == 0, FormError::CommandRequired);

    let policy = if str_eq(form.policy.as_str(), "immediate") {
        Some(Policy::Immediate)
    } else if str_eq(form.policy.as_str(), "threshold") {
        match form.threshold_nok {
            NumberField::Value(v) => if v > 0 { Some(Policy::Threshold { max_nok_per_kwh: v }) } else { None },
            _ => None,
        }
    } else {
        Some(Policy::CheapestWindow)
    };
    push_if(&mut errors, policy.is_none(), FormError::ThresholdRequired);

    let duration = match parse_i64(&form.duration_minutes) {
        Some(m) => if m >= 1 { Some(m) } else { None },
        None => if is_blank(&form.duration_minutes) { Some(60) } else { None },
    };
    push_if(&mut errors, duration.is_none(), FormError::DurationInvalid);

    let parsed = match &form.deadline {
        Some(s) => parse_deadline(s.as_str()),
        None => None,
    };
    let deadline: Result<Option<i64>, FormError> = match parsed {
        None => if is_blank(&form.deadline) { Ok(None) } else { Err(FormError::DeadlineUnparseable) },
        Some(t) => if t <= now {
            Err(FormError::DeadlinePast)
        } else if t > MAX_TIME {
            Err(FormError::DeadlineOutOfRange)
        } else {
            Ok(Some(t))
        },
    };
    match deadline {
        Err(e) => push_if(&mut errors, true, e),
        Ok(_) => push_if(&mut errors, false, FormError::DeadlinePast),
    }

    let power: Result<Option<i64>, FormError> = match form.power_watts {
        NumberField::Value(w) => if w > 0 { Ok(Some(w)) } else { Err(FormError::PowerInvalid) },
        NumberField::Blank => Ok(None),
        NumberField::Invalid => Err(FormError::PowerInvalid),
    };
    match power {
        Err(e) => push_if(&mut errors, true, e),
        Ok(_) => push_if(&mut errors, false, FormError::PowerInvalid),
    }

    proof {
        assert(errors@ =~= form_errors(*form, now as int));
    }
    if errors.len() > 0 {
        return Err(errors);
    }

    let priority = match &form.priority {
        Some(p) => priority_from_text(p.as_str()),
        None => Priority::Normal,
    };
    let repeat = match &form.repeat {
        Some(p) => Repeat::from_db(p.as_str()),
        None => Repeat::Once,
    };
    proof {
        reveal_strlit("normal");
        reveal_strlit("none");
        reveal_strlit("low");
        reveal_strlit("high");
        reveal_strlit("critical");
        reveal_strlit("daily");
    }
    let job = NewJob {
        name,
        command,
        policy: policy.unwrap(),
        duration_minutes: duration.unwrap(),
        deadline: deadline.unwrap(),
        power_watts: match power {
            Ok(p) => p,
            Err(_) => None,
        },
        priority,
        repeat,
        earliest_start: None,
        created_at: now,
    };
    proof {
        crate::model::priority_round_trips(Priority::Normal);
        crate::model::repeat_round_trips(Repeat::Once);
    }
    Ok(job)
}

// ---------------------------------------------------------------------------
// The JSON API's typed request
// ---------------------------------------------------------------------------

/// A job submitted through the JSON API: the form's fields, already typed.
/// The threshold is µNOK/kWh, instants are Unix seconds, power is watts.
#[derive(Debug, Clone)]
pub struct CreateJobRequest {
    pub name: String,
    pub command: String,
    pub policy: Policy,
    /// Whole minutes; 60 when omitted.
    pub duration_minutes: Option<i64>,
    pub deadline: Option<i64>,
    pub power_watts: Option<i64>,
    pub priority: Priority,
    pub repeat: Repeat,
}

/// Every reason the request can't become a job, in field order.
pub open spec fn request_errors(req: CreateJobRequest, now: int) -> Seq<FormError> {
    let e1 = if spec_trim(req.name@).len() == 0 { seq![FormError::NameRequired] } else { Seq::empty() };
    let e2 = if spec_trim(req.command@).len() == 0 { seq![FormError::CommandRequired] } else { Seq::empty() };
    let e3 = match req.policy {
        Policy::Threshold { max_nok_per_kwh } => if max_nok_per_kwh <= 0 { seq![FormError::ThresholdRequired] } else { Seq::empty() },
        _ => Seq::empty(),
    };
    let e4 = match req.duration_minutes {
        Some(m) => if m < 1 { seq![FormError::DurationInvalid] } else { Seq::empty() },
        None => Seq::empty(),
    };
    let e5 = match req.deadline {
        Some(dl) => if dl <= now {
            seq![FormError::DeadlinePast]
        } else if !valid_time(dl as int) {
            seq![FormError::DeadlineOutOfRange]
        } else {
            Seq::empty()
        },
        None => Seq::empty(),
    };
    let e6 = match req.power_watts {
        Some(w) => if w <= 0 { seq![FormError::PowerInvalid] } else { Seq::empty() },
        None => Seq::empty(),
    };
    e1 + e2 + e3 + e4 + e5 + e6
}

/// The same checks as the form's, against already-typed fields. Names and
/// commands are trimmed; an omitted duration means 60 minutes.
pub fn validate_request(req: CreateJobRequest, now: i64) -> (r: Result<NewJob, Vec<FormError>>)
    requires
        valid_time(now as int),
    ensures
        match r {
            Ok(job) => {
                &&& request_errors(req, now as int).len() == 0
                &&& job.name@ == spec_trim(req.name@)
                &&& job.command@ == spec_trim(req.command@)
                &&& job.policy == req.policy
                &&& job.duration_minutes == (match req.duration_minutes { Some(m) => m, None => 60 })
                &&& job.deadline == req.deadline
                &&& job.power_watts == req.power_watts
                &&& job.priority == req.priority
                &&& job.repeat == req.repeat
                &&& job.earliest_start is None
                &&& job.created_at == now
            },
            Err(errors) => errors@ == request_errors(req, now as int) && errors@.len() > 0,
        },
{
    let mut errors: Vec<FormError> = Vec::new();
    let name = trim(req.name.as_str());
    let command = trim(req.command.as_str());
    push_if(&mut errors, name.as_str().unicode_len() == 0, FormError::NameRequired);
    push_if(&mut errors, command.as_str().unicode_len() == 0, FormError::CommandRequired);
    let bad_threshold = match req.policy {
        Policy::Threshold { max_nok_per_kwh } => max_nok_per_kwh <= 0,
        _ => false,
    };
    push_if(&mut errors, bad_threshold, FormError::ThresholdRequired);
    let duration = match req.duration_minutes {
        Some(m) => m,
        None => 60,
    };
    let bad_duration = match req.duration_minutes {
        Some(m) => m < 1,
        None => false,
    };
    push_if(&mut errors, bad_duration, FormError::DurationInvalid);
    match req.deadline {
        Some(dl) => {
            if dl <= now {
                push_if(&mut errors, true, FormError::DeadlinePast);
            } else {
                push_if(&mut errors, dl > MAX_TIME, FormError::DeadlineOutOfRange);
            }
        },
        None => push_if(&mut errors, false, FormError::DeadlinePast),
    }
    let bad_power = match req.power_watts {
        Some(w) => w <= 0,
        None => false,
    };
    push_if(&mut errors, bad_power, FormError::PowerInvalid);
    proof {
        assert(errors@ =~= request_errors(req, now as int));
    }
    if errors.len() > 0 {
        return Err(errors);
    }
    Ok(NewJob {
        name,
        command,
        policy: req.policy,
        duration_minutes: duration,
        deadline: req.deadline,
        power_watts: req.power_watts,
        priority: req.priority,
        repeat: req.repeat,
        earliest_start: None,
        created_at: now,
    })
}

/// A form that passes validation describes a well-formed job: a name and a
/// command that are more than whitespace, a duration of at least a minute,
/// a deadline (if any) ahead of `now` and within range, a positive draw (if
/// any), and a positive threshold under the threshold policy.
pub proof fn validated_forms_make_well_formed_jobs(form: CreateForm, now: int)
    requires
        form_errors(form, now).len() == 0,
    ensures
        spec_trim(form.name@).len() > 0,
        spec_trim(form.command@).len() > 0,
        form_job(form, now).duration_minutes >= 1,
        form_job(form, now).deadline matches Some(d) ==> d > now && valid_time(d as int),
        form_job(form, now).power_watts matches Some(w) ==> w > 0,
        form_job(form, now).policy matches Policy::Threshold { max_nok_per_kwh } ==> max_nok_per_kwh > 0,
{
    let e1 = if spec_trim(form.name@).len() == 0 { seq![FormError::NameRequired] } else { Seq::<FormError>::empty() };
    let e2 = if spec_trim(form.command@).len() == 0 { seq![FormError::CommandRequired] } else { Seq::<FormError>::empty() };
    assert(form_errors(form, now).len() >= e1.len() + e2.len());
}

} // verus!
