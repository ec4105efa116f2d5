use g_forms::moment::Moment;
use g_forms::moment::TimeOfDay;
use g_forms::num::parse_number;
use g_forms::num::Number;
use g_forms::question::Question;
use g_forms::question::ShortAnswer;
use g_forms::question::{Date, Time};
use g_forms::raw::{DateType, TimeType};
use g_forms::validation::InputValidation;
use g_forms::FillError;

/// Check that stringified answers conform to the submission protocol.
#[test]
fn test_string_answers() {
    let mut qn_short = Question::<ShortAnswer>::default();
    qn_short.fill_number(Number::from_i64(100)).unwrap();
    let stringified = qn_short.form_response().unwrap();
    assert_eq!(stringified, "100");

    qn_short.fill_number(parse_number("3.14").unwrap()).unwrap();
    let stringified = qn_short.form_response().unwrap();
    assert_eq!(stringified, "3.14");

    let d = Moment::new(1970, 12, 24, 9, 18, 27).unwrap();

    let mut qn_date = Question::<Date>::default();
    qn_date.date_type = Some(DateType::Date);
    qn_date.fill_date(d).unwrap();
    let stringified = qn_date.form_response().unwrap();
    assert_eq!(stringified, "1970-12-24");

    qn_date.date_type = Some(DateType::DateTime);
    qn_date.fill_date(d).unwrap();
    let stringified = qn_date.form_response().unwrap();
    assert_eq!(stringified, "1970-12-24 09:18:00");

    qn_date.date_type = Some(DateType::DateTimeYear);
    qn_date.fill_date(d).unwrap();
    let stringified = qn_date.form_response().unwrap();
    assert_eq!(stringified, "1970-12-24 09:18:00");

    qn_date.date_type = Some(DateType::DateYear);
    qn_date.fill_date(d).unwrap();
    let stringified = qn_date.form_response().unwrap();
    assert_eq!(stringified, "1970-12-24");

    let t = TimeOfDay { hour: 9, minute: 18, second: 27 };

    let mut qn_time = Question::<Time>::default();
    qn_time.time_type = Some(TimeType::Time);
    qn_time.fill_time(t).unwrap();
    let stringified = qn_time.form_response().unwrap();
    assert_eq!(stringified, "09:18:00");

    qn_time.time_type = Some(TimeType::Duration);
    qn_time.fill_time(t).unwrap();
    let stringified = qn_time.form_response().unwrap();
    assert_eq!(stringified, "09:18:27");
}

/// An at-least-ten rule accepts ten and above and rejects nine and
/// below.
#[test]
fn gte_ten_scenario() {
    let mut q = Question::<ShortAnswer>::default();
    q.input_validation = Some(InputValidation::NumberGTE(Number::from_i64(10)));

    assert_eq!(q.fill_number(Number::from_i64(9)), Err(FillError::FailedValidation));
    assert!(q.form_response().is_none());

    assert!(q.fill_number(Number::from_i64(10)).is_ok());
    assert_eq!(q.form_response().unwrap(), "10");

    assert!(q.fill_number(Number::from_i64(11)).is_ok());
    assert_eq!(q.form_response().unwrap(), "11");

    assert!(q.fill_number(Number::from_i64(-3)).is_err());
    assert_eq!(q.form_response().unwrap(), "11");
}

/// A not-between rule with ordered operands rejects every number.
#[test]
fn not_between_rejects_everything() {
    let mut q = Question::<ShortAnswer>::default();
    q.input_validation = Some(InputValidation::NumberNBT(
        Number::from_i64(2),
        Number::from_i64(5),
    ));

    assert!(q.fill_number(Number::from_i64(1)).is_err());
    assert!(q.fill_number(Number::from_i64(3)).is_err());
    assert!(q.fill_number(Number::from_i64(6)).is_err());
    assert!(q.fill_number(parse_number("3.5").unwrap()).is_err());
    assert!(q.form_response().is_none());
}

/// The whole-number rule rejects a fractional value and accepts a
/// whole one, producing its canonical string.
#[test]
fn is_whole_scenario() {
    let mut q = Question::<ShortAnswer>::default();
    q.input_validation = Some(InputValidation::NumberIsWhole);

    assert!(q.fill_str("3.14").is_err());
    assert!(q.form_response().is_none());

    assert!(q.fill_str("3").is_ok());
    assert_eq!(q.form_response().unwrap(), "3");
}

/// A numeric rule on a text fill parses the candidate first and
/// rejects what does not parse.
#[test]
fn text_fill_delegates_to_numeric() {
    let mut q = Question::<ShortAnswer>::default();
    q.input_validation = Some(InputValidation::NumberGTE(Number::from_i64(10)));

    assert!(q.fill_str("twelve").is_err());
    assert!(q.fill_str("9").is_err());
    assert!(q.fill_str("12").is_ok());
    assert_eq!(q.form_response().unwrap(), "12");
}

/// Text containment rules accept and reject by substring.
#[test]
fn contains_rules() {
    let mut q = Question::<ShortAnswer>::default();
    q.input_validation = Some(InputValidation::TextContains("bc".to_string()));
    assert!(q.fill_str("abcd").is_ok());
    assert_eq!(q.form_response().unwrap(), "abcd");
    assert!(q.fill_str("acbd").is_err());
    assert_eq!(q.form_response().unwrap(), "abcd");

    let mut q2 = Question::<ShortAnswer>::default();
    q2.input_validation = Some(InputValidation::TextNotContains("bc".to_string()));
    assert!(q2.fill_str("abcd").is_err());
    assert!(q2.fill_str("acbd").is_ok());
    assert_eq!(q2.form_response().unwrap(), "acbd");
}

/// Length rules bound the candidate's character count.
#[test]
fn length_rules() {
    let mut q = Question::<ShortAnswer>::default();
    q.input_validation = Some(InputValidation::LengthMaximumChars(3));
    assert!(q.fill_str("abcd").is_err());
    assert!(q.fill_str("abc").is_ok());
    assert_eq!(q.form_response().unwrap(), "abc");

    let mut q2 = Question::<ShortAnswer>::default();
    q2.input_validation = Some(InputValidation::LengthMinimumChars(3));
    assert!(q2.fill_str("ab").is_err());
    assert!(q2.fill_str("abc").is_ok());
}

/// The URL rule accepts a well-formed URL and rejects plain text.
#[test]
fn url_rule() {
    let mut q = Question::<ShortAnswer>::default();
    q.input_validation = Some(InputValidation::TextIsUrl);
    assert!(q.fill_str("not a url").is_err());
    assert!(q.form_response().is_none());
    assert!(q.fill_str("http://example.com/path").is_ok());
    assert_eq!(q.form_response().unwrap(), "http://example.com/path");
}

/// The email rule accepts an email-shaped string and rejects others.
#[test]
fn email_rule() {
    let mut q = Question::<ShortAnswer>::default();
    q.input_validation = Some(InputValidation::TextIsEmail);
    assert!(q.fill_str("someone@").is_err());
    assert!(q.fill_str("plainaddress").is_err());
    assert!(q.fill_str("a.b+c@example.co").is_ok());
    assert_eq!(q.form_response().unwrap(), "a.b+c@example.co");
}

/// A regex-family rule rejects explicitly as not implemented rather
/// than passing silently.
#[test]
fn regex_rules_not_implemented() {
    let mut q = Question::<ShortAnswer>::default();
    q.input_validation = Some(InputValidation::RegexMatches("a+".to_string()));
    assert_eq!(q.fill_str("aaa"), Err(FillError::NotImplemented));
    assert!(q.form_response().is_none());
}

/// With no rule attached, any text is accepted verbatim and any
/// number canonically.
#[test]
fn no_rule_accepts() {
    let mut q = Question::<ShortAnswer>::default();
    assert!(q.fill_str("anything at all").is_ok());
    assert_eq!(q.form_response().unwrap(), "anything at all");
    assert!(q.fill_number(parse_number("-2.50").unwrap()).is_ok());
    assert_eq!(q.form_response().unwrap(), "-2.5");
}

/// A date fill without a subtype fails and changes nothing.
#[test]
fn date_fill_needs_subtype() {
    let mut q = Question::<Date>::default();
    let d = Moment::new(1970, 12, 24, 9, 18, 27).unwrap();
    assert_eq!(q.fill_date(d), Err(FillError::MissingField));
    assert!(q.form_response().is_none());
    assert!(q.date_time.is_none());
}

/// A time fill without a subtype fails and changes nothing.
#[test]
fn time_fill_needs_subtype() {
    let mut q = Question::<Time>::default();
    let t = TimeOfDay { hour: 9, minute: 18, second: 27 };
    assert_eq!(q.fill_time(t), Err(FillError::MissingField));
    assert!(q.form_response().is_none());
}
