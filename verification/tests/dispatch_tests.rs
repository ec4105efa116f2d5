use g_forms::form::QuestionType;
use g_forms::moment::Moment;
use g_forms::moment::TimeOfDay;
use g_forms::num::Number;
use g_forms::question::Question;
use g_forms::question::{Date, MultipleChoice, ShortAnswer, Time};
use g_forms::raw::{DateType, RawQuestionInfo, RawSelectionInfo, TimeType};
use g_forms::FillError;

fn mc_question() -> Question<MultipleChoice> {
    let rec = RawQuestionInfo {
        input_validation: None,
        dimension_1: Some(vec![
            RawSelectionInfo { name: "red".to_string() },
            RawSelectionInfo { name: "green".to_string() },
            RawSelectionInfo { name: "blue".to_string() },
        ]),
        dimension_2: None,
        date_type: None,
        time_type: None,
    };
    Question::<MultipleChoice>::try_from(vec![rec]).unwrap()
}

/// Fill-by-option-index on a dispatcher wrapping a short answer fails
/// as not applicable and leaves the entity unchanged.
#[test]
fn option_fill_on_short_answer_not_applicable() {
    let mut qt = QuestionType::ShortAnswer(Question::<ShortAnswer>::default());
    assert_eq!(qt.fill_option(1), Err(FillError::NotApplicable));
    match qt {
        QuestionType::ShortAnswer(q) => {
            assert!(q.response.is_none());
            assert!(q.input_validation.is_none());
            assert!(q.inner.is_none());
        },
        _ => panic!("kind changed"),
    }
}

/// The dispatcher routes each fill to the matching kind.
#[test]
fn dispatcher_routes_matching_kind() {
    let mut qt = QuestionType::ShortAnswer(Question::<ShortAnswer>::default());
    assert!(qt.fill_str("hello").is_ok());
    assert!(qt.fill_number(Number::from_i64(7)).is_ok());
    match &qt {
        QuestionType::ShortAnswer(q) => assert_eq!(q.form_response().unwrap(), "7"),
        _ => panic!("kind changed"),
    }

    let mut mc = QuestionType::MultipleChoice(mc_question());
    assert!(mc.fill_option(2).is_ok());
    match &mc {
        QuestionType::MultipleChoice(q) => assert_eq!(q.form_response().unwrap(), "blue"),
        _ => panic!("kind changed"),
    }
    assert_eq!(mc.fill_str("text"), Err(FillError::NotApplicable));
    assert_eq!(mc.fill_number(Number::from_i64(1)), Err(FillError::NotApplicable));

    let mut qd = Question::<Date>::default();
    qd.date_type = Some(DateType::Date);
    let mut date_qt = QuestionType::Date(qd);
    let m = Moment::new(2001, 2, 3, 4, 5, 6).unwrap();
    assert!(date_qt.fill_date(m).is_ok());
    match &date_qt {
        QuestionType::Date(q) => assert_eq!(q.form_response().unwrap(), "2001-02-03"),
        _ => panic!("kind changed"),
    }
    assert_eq!(date_qt.fill_time(TimeOfDay { hour: 1, minute: 2, second: 3 }),
        Err(FillError::NotApplicable));

    let mut qt_time = Question::<Time>::default();
    qt_time.time_type = Some(TimeType::Duration);
    let mut time_qt = QuestionType::Time(qt_time);
    assert!(time_qt.fill_time(TimeOfDay { hour: 1, minute: 2, second: 3 }).is_ok());
    match &time_qt {
        QuestionType::Time(q) => assert_eq!(q.form_response().unwrap(), "01:02:03"),
        _ => panic!("kind changed"),
    }
    assert_eq!(time_qt.fill_date(m), Err(FillError::NotApplicable));
}

/// The grid kind supports no fill at all.
#[test]
fn grid_supports_nothing() {
    let mut qt = QuestionType::Grid;
    assert_eq!(qt.fill_str("x"), Err(FillError::NotApplicable));
    assert_eq!(qt.fill_number(Number::from_i64(1)), Err(FillError::NotApplicable));
    assert_eq!(qt.fill_option(0), Err(FillError::NotApplicable));
    assert_eq!(qt.fill_date(Moment::new(2001, 2, 3, 4, 5, 6).unwrap()),
        Err(FillError::NotApplicable));
    assert_eq!(qt.fill_time(TimeOfDay { hour: 1, minute: 2, second: 3 }),
        Err(FillError::NotApplicable));
}
