use g_forms::question::Question;
use g_forms::question::{CheckBox, Date, DropDown, Grid, LinearScale, MultipleChoice, ShortAnswer, Time};
use g_forms::raw::{DateType, RawInputValidation, RawQuestionInfo, RawSelectionInfo, TimeType};
use g_forms::validation::InputValidation;
use g_forms::ConvertError;
use g_forms::FillError;

fn empty_record() -> RawQuestionInfo {
    RawQuestionInfo {
        input_validation: None,
        dimension_1: None,
        dimension_2: None,
        date_type: None,
        time_type: None,
    }
}

fn options(names: &[&str]) -> Vec<RawSelectionInfo> {
    names.iter().map(|n| RawSelectionInfo { name: n.to_string() }).collect()
}

/// An open-ended conversion keeps the first descriptor's rule and
/// message.
#[test]
fn open_ended_with_validation() {
    let mut rec = empty_record();
    rec.input_validation = Some(vec![RawInputValidation {
        condition: 2,
        operands: vec!["10".to_string()],
        error_text: Some("too small".to_string()),
    }]);
    let q = Question::<ShortAnswer>::try_from(vec![rec]).unwrap();
    assert!(matches!(q.input_validation, Some(InputValidation::NumberGTE(_))));
    assert_eq!(q.validation_error.as_deref(), Some("too small"));
    assert!(q.response.is_none());
}

/// An open-ended conversion fails on an unparseable descriptor, the
/// same as a selection conversion does.
#[test]
fn open_ended_rejects_bad_descriptor() {
    let mut rec = empty_record();
    rec.input_validation = Some(vec![RawInputValidation {
        condition: 99,
        operands: vec![],
        error_text: Some("whatever".to_string()),
    }]);
    assert_eq!(
        Question::<ShortAnswer>::try_from(vec![rec]).err(),
        Some(ConvertError::Invalid)
    );
}

/// An open-ended conversion with an empty descriptor list attaches
/// nothing and succeeds: no descriptor was supplied.
#[test]
fn open_ended_empty_descriptor_list() {
    let mut rec = empty_record();
    rec.input_validation = Some(vec![]);
    let q = Question::<ShortAnswer>::try_from(vec![rec]).unwrap();
    assert!(q.input_validation.is_none());
    assert!(q.validation_error.is_none());
}

/// Conversion from an empty raw record fails.
#[test]
fn empty_record_list_fails() {
    assert!(Question::<ShortAnswer>::try_from(vec![]).is_err());
    assert!(Question::<MultipleChoice>::try_from(vec![]).is_err());
    assert!(Question::<Date>::try_from(vec![]).is_err());
    assert!(Question::<Time>::try_from(vec![]).is_err());
}

/// A selection conversion installs unselected options.
#[test]
fn selection_installs_options() {
    let mut rec = empty_record();
    rec.dimension_1 = Some(options(&["red", "green", "blue"]));
    let q = Question::<MultipleChoice>::try_from(vec![rec]).unwrap();
    let opts = q.inner.as_ref().unwrap();
    assert_eq!(opts.len(), 3);
    assert_eq!(opts[1].answer, "green");
    assert!(opts.iter().all(|o| !o.selected));
    assert!(q.limits.is_none());
}

/// Construction from a raw record with an empty option list fails
/// for every selection kind.
#[test]
fn empty_option_list_fails_every_selection_kind() {
    let mut rec = empty_record();
    rec.dimension_1 = Some(vec![]);
    assert_eq!(
        Question::<MultipleChoice>::try_from(vec![rec.clone()]).err(),
        Some(ConvertError::Invalid)
    );
    assert_eq!(Question::<DropDown>::try_from(vec![rec.clone()]).err(), Some(ConvertError::Invalid));
    assert_eq!(Question::<CheckBox>::try_from(vec![rec.clone()]).err(), Some(ConvertError::Invalid));
    assert_eq!(Question::<LinearScale>::try_from(vec![rec]).err(), Some(ConvertError::Invalid));
}

/// A scale conversion takes the first two bounds; fewer than two is
/// an error.
#[test]
fn scale_bounds() {
    let mut rec = empty_record();
    rec.dimension_1 = Some(options(&["1", "2", "3", "4", "5"]));
    rec.dimension_2 = Some(vec![1, 5, 9]);
    let q = Question::<LinearScale>::try_from(vec![rec]).unwrap();
    let limits = q.limits.unwrap();
    assert_eq!(limits.lower, 1);
    assert_eq!(limits.upper, 5);

    let mut bad = empty_record();
    bad.dimension_1 = Some(options(&["1", "2"]));
    bad.dimension_2 = Some(vec![1]);
    assert_eq!(Question::<LinearScale>::try_from(vec![bad]).err(), Some(ConvertError::Invalid));
}

/// A selection conversion propagates a malformed descriptor as an
/// error instead of dropping it.
#[test]
fn selection_rejects_bad_descriptor() {
    let mut rec = empty_record();
    rec.dimension_1 = Some(options(&["a", "b"]));
    rec.input_validation = Some(vec![RawInputValidation {
        condition: 1,
        operands: vec!["not-a-number".to_string()],
        error_text: None,
    }]);
    assert_eq!(Question::<MultipleChoice>::try_from(vec![rec]).err(), Some(ConvertError::Invalid));
}

/// Date conversion decodes the four subtype codes and rejects the
/// rest.
#[test]
fn date_conversion_codes() {
    for (code, expect) in [
        (0u64, DateType::Date),
        (1, DateType::DateYear),
        (2, DateType::DateTime),
        (3, DateType::DateTimeYear),
    ] {
        let mut rec = empty_record();
        rec.date_type = Some(code);
        let q = Question::<Date>::try_from(vec![rec]).unwrap();
        assert_eq!(q.date_type, Some(expect));
    }
    let mut bad = empty_record();
    bad.date_type = Some(7);
    assert_eq!(Question::<Date>::try_from(vec![bad]).err(), Some(ConvertError::Invalid));
    assert_eq!(Question::<Date>::try_from(vec![empty_record()]).err(), Some(ConvertError::Invalid));
}

/// Time conversion decodes the two subtype codes and rejects the
/// rest.
#[test]
fn time_conversion_codes() {
    for (code, expect) in [(0u64, TimeType::Time), (1, TimeType::Duration)] {
        let mut rec = empty_record();
        rec.time_type = Some(code);
        let q = Question::<Time>::try_from(vec![rec]).unwrap();
        assert_eq!(q.time_type, Some(expect));
    }
    let mut bad = empty_record();
    bad.time_type = Some(2);
    assert_eq!(Question::<Time>::try_from(vec![bad]).err(), Some(ConvertError::Invalid));
    assert_eq!(Question::<Time>::try_from(vec![empty_record()]).err(), Some(ConvertError::Invalid));
}

/// The grid kind's conversion fails with the explicit unsupported
/// signal.
#[test]
fn grid_is_unsupported() {
    assert_eq!(
        Question::<Grid>::try_from(vec![empty_record()]).err(),
        Some(ConvertError::Unsupported)
    );
}

/// Selecting an option marks it and sets the response; earlier flags
/// are not cleared; out-of-range fails without mutation.
#[test]
fn option_fill_behavior() {
    let mut rec = empty_record();
    rec.dimension_1 = Some(options(&["red", "green", "blue"]));
    let mut q = Question::<MultipleChoice>::try_from(vec![rec]).unwrap();

    assert!(q.fill_option(0).is_ok());
    assert_eq!(q.form_response().unwrap(), "red");
    assert!(q.inner.as_ref().unwrap()[0].selected);

    assert!(q.fill_option(1).is_ok());
    assert_eq!(q.form_response().unwrap(), "green");
    let opts = q.inner.as_ref().unwrap();
    assert!(opts[1].selected);
    // the earlier selection is not forcibly cleared
    assert!(opts[0].selected);
    assert!(!opts[2].selected);

    assert_eq!(q.fill_option(5), Err(FillError::OutOfRange));
    assert_eq!(q.form_response().unwrap(), "green");
    let opts = q.inner.as_ref().unwrap();
    assert!(opts[0].selected && opts[1].selected && !opts[2].selected);
}

/// Selecting option one of a fresh three-option list sets its text
/// and flag while option zero keeps its prior (unset) flag.
#[test]
fn option_fill_fresh_list() {
    let mut rec = empty_record();
    rec.dimension_1 = Some(options(&["red", "green", "blue"]));
    let mut q = Question::<MultipleChoice>::try_from(vec![rec]).unwrap();
    assert!(q.fill_option(1).is_ok());
    assert_eq!(q.form_response().unwrap(), "green");
    let opts = q.inner.as_ref().unwrap();
    assert!(!opts[0].selected);
    assert!(opts[1].selected);
    assert!(!opts[2].selected);
}
