//! The question entity: a kind-parameterized record owning its
//! response, validation rule and kind-specific auxiliary state, with
//! the authoritative fill/validate logic.

use core::marker::PhantomData;
use vstd::prelude::*;

use crate::moment::hm_chars;
use crate::moment::hms_chars;
use crate::moment::ymd_chars;
use crate::moment::ymd_hm_chars;
use crate::moment::Moment;
use crate::moment::TimeOfDay;
use crate::num::parseable;
use crate::num::parsed_number;
use crate::num::spec_render;
use crate::num::Number;
use crate::raw::DateType;
use crate::raw::RawQuestionInfo;
use crate::raw::RawSelectionInfo;
use crate::raw::TimeType;
use crate::text::email_shaped;
use crate::text::has_substring;
use crate::text::url_wellformed;
use crate::validation::is_numeric_rule;
use crate::validation::numeric_accepts;
use crate::validation::rule_wf;
use crate::validation::spec_rule_of;
use crate::validation::InputValidation;
use crate::validation::RuleV;
use crate::ConvertError;
use crate::FillError;

verus! {

/// Unit types that implement this trait can be used as a question
/// kind.
pub trait IsQuestion {

}

/// The short open-ended text kind.
#[derive(Clone, Copy, Debug, Default)]
pub struct ShortAnswer {}

/// The long open-ended text kind.
#[derive(Clone, Copy, Debug, Default)]
pub struct LongAnswer {}

/// The single-choice selection kind.
#[derive(Clone, Copy, Debug, Default)]
pub struct MultipleChoice {}

/// The drop-down selection kind.
#[derive(Clone, Copy, Debug, Default)]
pub struct DropDown {}

/// The multi-choice selection kind.
#[derive(Clone, Copy, Debug, Default)]
pub struct CheckBox {}

/// The linear-scale selection kind.
#[derive(Clone, Copy, Debug, Default)]
pub struct LinearScale {}

/// The grid kind; its conversion is deliberately unsupported.
#[derive(Clone, Copy, Debug, Default)]
pub struct Grid {}

/// The date kind.
#[derive(Clone, Copy, Debug, Default)]
pub struct Date {}

/// The time kind.
#[derive(Clone, Copy, Debug, Default)]
pub struct Time {}

impl IsQuestion for ShortAnswer {

}

impl IsQuestion for LongAnswer {

}

impl IsQuestion for MultipleChoice {

}

impl IsQuestion for DropDown {

}

impl IsQuestion for CheckBox {

}

impl IsQuestion for LinearScale {

}

impl IsQuestion for Grid {

}

impl IsQuestion for Date {

}

impl IsQuestion for Time {

}

/// One selectable option: its answer text and whether it has been
/// selected by a fill.
#[derive(Clone, Debug)]
pub struct SingleSelection {
    /// The option's answer text.
    pub answer: String,
    /// Whether a fill has selected this option.
    pub selected: bool,
}

/// The lower and upper bound of a linear-scale question.
#[derive(Clone, Copy, Debug, PartialEq, Eq, Structural)]
pub struct SelectionLimits {
    /// The scale's lower bound.
    pub lower: i64,
    /// The scale's upper bound.
    pub upper: i64,
}

/// The spec-level form of one selectable option.
#[verifier::ext_equal]
pub ghost struct OptionV {
    /// The option's answer text.
    pub answer: Seq<char>,
    /// Whether the option is selected.
    pub selected: bool,
}

/// The spec-level form of a question: every field as a plain
/// mathematical value.
#[verifier::ext_equal]
pub ghost struct QuestionV {
    /// The canonical response, once a fill has succeeded.
    pub response: Option<Seq<char>>,
    /// The attached validation rule.
    pub rule: Option<RuleV>,
    /// The message shown when validation rejects.
    pub error_text: Option<Seq<char>>,
    /// The selectable options, for selection kinds.
    pub options: Option<Seq<OptionV>>,
    /// The scale bounds, for linear-scale questions.
    pub limits: Option<(i64, i64)>,
    /// The date formatting subtype, for date questions.
    pub date_type: Option<DateType>,
    /// The time formatting subtype, for time questions.
    pub time_type: Option<TimeType>,
    /// The last successfully parsed date-time value.
    pub date_time: Option<Moment>,
}

/// A form question of kind `T`.
///
/// The kind is fixed at construction; a fill validates one candidate
/// answer and, only on success, commits the canonical response string.
#[derive(Debug)]
pub struct Question<T: IsQuestion> {
    /// The kind tag.
    pub marker: PhantomData<T>,
    /// Form response, always in string form; set only by a
    /// successful fill.
    pub response: Option<String>,
    /// Input validation, attached at construction.
    pub input_validation: Option<InputValidation>,
    /// Error message for when input validation fails.
    pub validation_error: Option<String>,
    /// The available choices, for selection kinds.
    pub inner: Option<Vec<SingleSelection>>,
    /// Lower and upper limits, for linear-scale questions.
    pub limits: Option<SelectionLimits>,
    /// The date formatting subtype, for date questions.
    pub date_type: Option<DateType>,
    /// The time formatting subtype, for time questions.
    pub time_type: Option<TimeType>,
    /// The last successfully parsed date-time value.
    pub date_time: Option<Moment>,
}

impl View for SingleSelection {
    type V = OptionV;

    open spec fn view(&self) -> OptionV {
        OptionV { answer: self.answer@, selected: self.selected }
    }
}

impl<T: IsQuestion> View for Question<T> {
    type V = QuestionV;

    open spec fn view(&self) -> QuestionV {
        QuestionV {
            response: match self.response {
                Some(s) => Some(s@),
                None => None,
            },
            rule: match self.input_validation {
                Some(v) => Some(v@),
                None => None,
            },
            error_text: match self.validation_error {
                Some(s) => Some(s@),
                None => None,
            },
            options: match self.inner {
                Some(v) => Some(v@.map_values(|o: SingleSelection| o@)),
                None => None,
            },
            limits: match self.limits {
                Some(l) => Some((l.lower, l.upper)),
                None => None,
            },
            date_type: self.date_type,
            time_type: self.time_type,
            date_time: self.date_time,
        }
    }
}

/// The spec-level form of a question with nothing set.
pub open spec fn empty_question_v() -> QuestionV {
    QuestionV {
        response: None,
        rule: None,
        error_text: None,
        options: None,
        limits: None,
        date_type: None,
        time_type: None,
        date_time: None,
    }
}

impl<T: IsQuestion> Default for Question<T> {
    /// A question with nothing set.
    fn default() -> (r: Self)
        ensures
            r@ == empty_question_v(),
    {
        let q = Question {
            marker: PhantomData,
            response: None,
            input_validation: None,
            validation_error: None,
            inner: None,
            limits: None,
            date_type: None,
            time_type: None,
            date_time: None,
        };
        proof {
            assert(q@ =~= empty_question_v());
        }
        q
    }
}

impl<T: IsQuestion> Question<T> {
    /// Well-formed: the attached rule's numeric operands are exact.
    pub open spec fn wf(self) -> bool {
        match self@.rule {
            Some(v) => rule_wf(v),
            None => true,
        }
    }

    /// The stringified response, if a fill has succeeded.
    pub fn form_response(&self) -> (r: Option<String>)
        ensures
            match r {
                Some(s) => self@.response == Some(s@),
                None => self@.response is None,
            },
    {
        match &self.response {
            Some(s) => Some(s.clone()),
            None => None,
        }
    }
}

/// Whether a numeric fill passes the attached rule: with no rule every
/// number is accepted; a non-numeric rule accepts no number.
pub open spec fn number_fill_ok(rule: Option<RuleV>, n: Number) -> bool {
    match rule {
        None => true,
        Some(v) => is_numeric_rule(v) && numeric_accepts(v, n),
    }
}

/// What a numeric fill does: on acceptance the canonical decimal
/// string becomes the response and nothing else changes; on rejection
/// the state is unchanged.
pub open spec fn number_fill_post(
    pre: QuestionV,
    post: QuestionV,
    n: Number,
    r: Result<(), FillError>,
) -> bool {
    if number_fill_ok(pre.rule, n) {
        r == Ok::<(), FillError>(()) && post == (QuestionV { response: Some(spec_render(n)), ..pre })
    } else {
        r == Err::<(), FillError>(FillError::FailedValidation) && post == pre
    }
}

/// What a text fill answers for a given rule and candidate: the
/// canonical response on acceptance, or the error. A numeric rule
/// first parses the candidate as a number; the regex family is
/// declared but not implemented and rejects explicitly.
pub open spec fn str_fill_outcome(rule: Option<RuleV>, s: Seq<char>) -> Result<
    Seq<char>,
    FillError,
> {
    match rule {
        None => Ok(s),
        Some(v) => if is_numeric_rule(v) {
            if !parseable(s) {
                Err(FillError::FailedValidation)
            } else if numeric_accepts(v, parsed_number(s)) {
                Ok(spec_render(parsed_number(s)))
            } else {
                Err(FillError::FailedValidation)
            }
        } else {
            match v {
                RuleV::TextContains(t) => if has_substring(s, t) {
                    Ok(s)
                } else {
                    Err(FillError::FailedValidation)
                },
                RuleV::TextNotContains(t) => if !has_substring(s, t) {
                    Ok(s)
                } else {
                    Err(FillError::FailedValidation)
                },
                RuleV::TextIsUrl => if url_wellformed(s) {
                    Ok(s)
                } else {
                    Err(FillError::FailedValidation)
                },
                RuleV::TextIsEmail => if email_shaped(s) {
                    Ok(s)
                } else {
                    Err(FillError::FailedValidation)
                },
                RuleV::LengthMaximumChars(n) => if s.len() <= n {
                    Ok(s)
                } else {
                    Err(FillError::FailedValidation)
                },
                RuleV::LengthMinimumChars(n) => if s.len() >= n {
                    Ok(s)
                } else {
                    Err(FillError::FailedValidation)
                },
                _ => Err(FillError::NotImplemented),
            }
        },
    }
}

/// What a text fill does: the outcome's string becomes the response
/// and nothing else changes, or the state is unchanged on the
/// outcome's error.
pub open spec fn str_fill_post(
    pre: QuestionV,
    post: QuestionV,
    s: Seq<char>,
    r: Result<(), FillError>,
) -> bool {
    match str_fill_outcome(pre.rule, s) {
        Ok(out) => r == Ok::<(), FillError>(()) && post == (QuestionV { response: Some(out), ..pre }),
        Err(e) => r == Err::<(), FillError>(e) && post == pre,
    }
}

/// What a selection fill does: an in-range index marks that option
/// selected — leaving every other flag as it was — and makes its text
/// the response; anything else fails without mutation.
pub open spec fn option_fill_post(
    pre: QuestionV,
    post: QuestionV,
    idx: usize,
    r: Result<(), FillError>,
) -> bool {
    match pre.options {
        None => r == Err::<(), FillError>(FillError::MissingField) && post == pre,
        Some(opts) => if (idx as int) < opts.len() {
            r == Ok::<(), FillError>(()) && post == (QuestionV {
                response: Some(opts[idx as int].answer),
                options: Some(
                    opts.update(
                        idx as int,
                        (OptionV { answer: opts[idx as int].answer, selected: true }),
                    ),
                ),
                ..pre
            })
        } else {
            r == Err::<(), FillError>(FillError::OutOfRange) && post == pre
        },
    }
}

/// The canonical response of a date fill for each date subtype; the
/// year-included subtypes format exactly as their plain counterparts.
pub open spec fn date_response(dt: DateType, m: Moment) -> Seq<char> {
    match dt {
        DateType::Date => ymd_chars(m),
        DateType::DateYear => ymd_chars(m),
        DateType::DateTime => ymd_hm_chars(m),
        DateType::DateTimeYear => ymd_hm_chars(m),
    }
}

/// What a date fill does: with a date subtype present the moment is
/// retained and its canonical form becomes the response; without one
/// the fill fails and the state is unchanged.
pub open spec fn date_fill_post(
    pre: QuestionV,
    post: QuestionV,
    m: Moment,
    r: Result<(), FillError>,
) -> bool {
    match pre.date_type {
        None => r == Err::<(), FillError>(FillError::MissingField) && post == pre,
        Some(dt) => r == Ok::<(), FillError>(()) && post == (QuestionV {
            response: Some(date_response(dt, m)),
            date_time: Some(m),
            ..pre
        }),
    }
}

/// Whether a rule speaks about a numeric candidate.
fn is_numeric_rule_exec(v: &InputValidation) -> (r: bool)
    ensures
        r == is_numeric_rule(v@),
{
    match v {
        InputValidation::NumberGT(_) => true,
        InputValidation::NumberGTE(_) => true,
        InputValidation::NumberLT(_) => true,
        InputValidation::NumberLTE(_) => true,
        InputValidation::NumberEQ(_) => true,
        InputValidation::NumberNEQ(_) => true,
        InputValidation::NumberBT(_, _) => true,
        InputValidation::NumberNBT(_, _) => true,
        InputValidation::NumberIsNumber => true,
        InputValidation::NumberIsWhole => true,
        _ => false,
    }
}

impl<T: IsQuestion> Question<T> {
    /// Validate a numeric candidate against the attached rule and, on
    /// acceptance, commit its canonical decimal string.
    pub(crate) fn fill_number_inner(&mut self, resp: Number) -> (r: Result<(), FillError>)
        requires
            old(self).wf(),
            resp.wf(),
        ensures
            number_fill_post(old(self)@, final(self)@, resp, r),
            final(self).wf(),
    {
        let accepted = match &self.input_validation {
            None => true,
            Some(v) => is_numeric_rule_exec(v) && crate::validation::numeric_check(v, &resp),
        };
        if !accepted {
            return Err(FillError::FailedValidation);
        }
        let s = resp.render();
        self.response = Some(s);
        proof {
            assert(self@ =~= (QuestionV { response: Some(spec_render(resp)), ..old(self)@ }));
        }
        Ok(())
    }

    /// Validate a text candidate against the attached rule and, on
    /// acceptance, commit the canonical response: the candidate
    /// itself, or, under a numeric rule, its parsed value's canonical
    /// decimal string.
    pub(crate) fn fill_str_inner(&mut self, resp: &str) -> (r: Result<(), FillError>)
        requires
            old(self).wf(),
        ensures
            str_fill_post(old(self)@, final(self)@, resp@, r),
            final(self).wf(),
    {
        let verdict: Result<Option<Number>, FillError> = match &self.input_validation {
            None => Ok(None),
            Some(v) => {
                if is_numeric_rule_exec(v) {
                    match crate::num::parse_number(resp) {
                        None => Err(FillError::FailedValidation),
                        Some(n) => {
                            if crate::validation::numeric_check(v, &n) {
                                Ok(Some(n))
                            } else {
                                Err(FillError::FailedValidation)
                            }
                        },
                    }
                } else {
                    match v {
                        InputValidation::TextContains(t) => {
                            if crate::text::contains_sub(resp, t.as_str()) {
                                Ok(None)
                            } else {
                                Err(FillError::FailedValidation)
                            }
                        },
                        InputValidation::TextNotContains(t) => {
                            if !crate::text::contains_sub(resp, t.as_str()) {
                                Ok(None)
                            } else {
                                Err(FillError::FailedValidation)
                            }
                        },
                        InputValidation::TextIsUrl => {
                            if crate::text::check_url(resp) {
                                Ok(None)
                            } else {
                                Err(FillError::FailedValidation)
                            }
                        },
                        InputValidation::TextIsEmail => {
                            if crate::text::check_email(resp) {
                                Ok(None)
                            } else {
                                Err(FillError::FailedValidation)
                            }
                        },
                        InputValidation::LengthMaximumChars(n) => {
                            let l = resp.unicode_len();
                            if l as u64 <= *n {
                                Ok(None)
                            } else {
                                Err(FillError::FailedValidation)
                            }
                        },
                        InputValidation::LengthMinimumChars(n) => {
                            let l = resp.unicode_len();
                            if l as u64 >= *n {
                                Ok(None)
                            } else {
                                Err(FillError::FailedValidation)
                            }
                        },
                        _ => Err(FillError::NotImplemented),
                    }
                }
            },
        };
        match verdict {
            Err(e) => Err(e),
            Ok(None) => {
                self.response = Some(resp.to_owned());
                proof {
                    assert(self@ =~= (QuestionV { response: Some(resp@), ..old(self)@ }));
                }
                Ok(())
            },
            Ok(Some(n)) => {
                let s = n.render();
                self.response = Some(s);
                proof {
                    assert(self@ =~= (QuestionV { response: Some(spec_render(n)), ..old(self)@ }));
                }
                Ok(())
            },
        }
    }

    /// Mark the option at a zero-based index selected and make its
    /// text the response; other options' flags are left untouched.
    pub(crate) fn fill_option_inner(&mut self, resp: usize) -> (r: Result<(), FillError>)
        ensures
            option_fill_post(old(self)@, final(self)@, resp, r),
    {
        match &mut self.inner {
            None => Err(FillError::MissingField),
            Some(v) => {
                if resp < v.len() {
                    let answer = v[resp].answer.clone();
                    let replacement = SingleSelection { answer: answer.clone(), selected: true };
                    v[resp] = replacement;
                    self.response = Some(answer);
                    proof {
                        let pre = old(self)@;
                        let opts = pre.options->Some_0;
                        assert(self.inner->Some_0@.map_values(|o: SingleSelection| o@) =~= opts
                            .update(
                            resp as int,
                            (OptionV { answer: opts[resp as int].answer, selected: true }),
                        ));
                        assert(self@ =~= (QuestionV {
                            response: Some(opts[resp as int].answer),
                            options: Some(
                                opts.update(
                                    resp as int,
                                    (OptionV { answer: opts[resp as int].answer, selected: true }),
                                ),
                            ),
                            ..pre
                        }));
                    }
                    Ok(())
                } else {
                    Err(FillError::OutOfRange)
                }
            },
        }
    }

    /// Retain a parsed moment and commit its canonical form per the
    /// date subtype.
    pub(crate) fn fill_date_inner(&mut self, resp: Moment) -> (r: Result<(), FillError>)
        requires
            resp.wf(),
        ensures
            date_fill_post(old(self)@, final(self)@, resp, r),
    {
        let dt = match self.date_type {
            Some(d) => d,
            None => {
                return Err(FillError::MissingField);
            },
        };
        let s = match dt {
            DateType::Date => crate::moment::format_ymd(&resp),
            DateType::DateYear => crate::moment::format_ymd(&resp),
            DateType::DateTime => crate::moment::format_ymd_hm(&resp),
            DateType::DateTimeYear => crate::moment::format_ymd_hm(&resp),
        };
        self.date_time = Some(resp);
        self.response = Some(s);
        proof {
            assert(self@ =~= (QuestionV {
                response: Some(date_response(dt, resp)),
                date_time: Some(resp),
                ..old(self)@
            }));
        }
        Ok(())
    }

    /// Combine a time of day with the machine's current date, retain
    /// the moment, and commit the canonical form per the time subtype.
    pub(crate) fn fill_time_inner(&mut self, resp: TimeOfDay) -> (r: Result<(), FillError>)
        requires
            resp.wf(),
        ensures
            time_fill_post(old(self)@, final(self)@, resp, r),
    {
        let tt = match self.time_type {
            Some(t) => t,
            None => {
                return Err(FillError::MissingField);
            },
        };
        let m = crate::moment::today_with_time(&resp);
        let s = match tt {
            TimeType::Time => crate::moment::format_hm(&resp),
            TimeType::Duration => crate::moment::format_hms(&resp),
        };
        self.date_time = Some(m);
        self.response = Some(s);
        proof {
            assert(self@ =~= (QuestionV {
                response: Some(time_response(tt, resp)),
                date_time: Some(m),
                ..old(self)@
            }));
        }
        Ok(())
    }
}

/// The canonical response of a time fill for each time subtype.
pub open spec fn time_response(tt: TimeType, t: TimeOfDay) -> Seq<char> {
    match tt {
        TimeType::Time => hm_chars(t),
        TimeType::Duration => hms_chars(t),
    }
}

/// What a time fill does: with a time subtype present the canonical
/// form becomes the response and the retained moment carries the
/// given time of day over the machine's current date; without one the
/// fill fails and the state is unchanged.
pub open spec fn time_fill_post(
    pre: QuestionV,
    post: QuestionV,
    t: TimeOfDay,
    r: Result<(), FillError>,
) -> bool {
    match pre.time_type {
        None => r == Err::<(), FillError>(FillError::MissingField) && post == pre,
        Some(tt) => {
            &&& r == Ok::<(), FillError>(())
            &&& post.date_time matches Some(m) && m.wf() && m.hour == t.hour && m.minute == t.minute
                && m.second == t.second
            &&& post == (QuestionV {
                response: Some(time_response(tt, t)),
                date_time: post.date_time,
                ..pre
            })
        },
    }
}

/// The rule an open-ended conversion attaches: the first
/// descriptor's rule, and nothing when no descriptor was supplied.
pub open spec fn spec_open_rule(first: RawQuestionInfo) -> Option<RuleV> {
    match first.input_validation {
        Some(list) => if list@.len() > 0 {
            spec_rule_of(list@[0])
        } else {
            None
        },
        None => None,
    }
}

/// What an open-ended conversion requires of the record: a first
/// element whose validation descriptor, when one is supplied, parses
/// to a known rule. An unparseable descriptor is a malformed field
/// and fails the construction.
pub open spec fn spec_open_ok(val: Seq<RawQuestionInfo>) -> bool {
    &&& val.len() > 0
    &&& (val[0].input_validation matches Some(l) ==> (l@.len() > 0 ==> spec_rule_of(l@[0])
        is Some))
}

/// The rejection message an open-ended conversion attaches, taken
/// from the first descriptor.
pub open spec fn spec_open_error_text(first: RawQuestionInfo) -> Option<Seq<char>> {
    match first.input_validation {
        Some(list) => if list@.len() > 0 {
            match list@[0].error_text {
                Some(t) => Some(t@),
                None => None,
            }
        } else {
            None
        },
        None => None,
    }
}

/// What an open-ended conversion produces: it fails exactly on an
/// empty record or an unparseable descriptor, else a question
/// holding only the extracted rule and message.
pub open spec fn open_ended_conversion<T: IsQuestion>(
    val: Seq<RawQuestionInfo>,
    r: Result<Question<T>, ConvertError>,
) -> bool {
    match r {
        Ok(q) => spec_open_ok(val) && q@ == (QuestionV {
            rule: spec_open_rule(val[0]),
            error_text: spec_open_error_text(val[0]),
            ..empty_question_v()
        }) && q.wf(),
        Err(e) => !spec_open_ok(val) && e == ConvertError::Invalid,
    }
}

/// Build an open-ended question from a raw record.
pub fn raw_to_open_ended<T: IsQuestion>(val: Vec<RawQuestionInfo>) -> (r: Result<
    Question<T>,
    ConvertError,
>)
    ensures
        open_ended_conversion(val@, r),
{
    if val.len() == 0 {
        return Err(ConvertError::Invalid);
    }
    let first = &val[0];
    let mut rule: Option<InputValidation> = None;
    let mut err_text: Option<String> = None;
    match &first.input_validation {
        None => {},
        Some(list) => {
            if list.len() > 0 {
                let rv = &list[0];
                match &rv.error_text {
                    Some(t) => {
                        err_text = Some(t.clone());
                    },
                    None => {},
                }
                match InputValidation::try_from_raw(rv) {
                    Ok(v) => {
                        rule = Some(v);
                    },
                    Err(e) => {
                        return Err(e);
                    },
                }
            }
        },
    }
    let q = Question {
        marker: PhantomData,
        response: None,
        input_validation: rule,
        validation_error: err_text,
        inner: None,
        limits: None,
        date_type: None,
        time_type: None,
        date_time: None,
    };
    proof {
        assert(q@ =~= (QuestionV {
            rule: spec_open_rule(val@[0]),
            error_text: spec_open_error_text(val@[0]),
            ..empty_question_v()
        }));
    }
    Ok(q)
}

/// What a selection conversion requires of the record: a first
/// element with a nonempty option list, a bounds list (if any) of at
/// least two entries, and a validation list (if any) whose first
/// descriptor parses.
pub open spec fn spec_selection_ok(val: Seq<RawQuestionInfo>) -> bool {
    &&& val.len() > 0
    &&& val[0].dimension_1 matches Some(opts) && opts@.len() > 0
    &&& (val[0].dimension_2 matches Some(l) ==> l@.len() >= 2)
    &&& (val[0].input_validation matches Some(l) ==> l@.len() > 0 && spec_rule_of(l@[0]) is Some)
}

/// The options a selection conversion installs: every raw option's
/// text, with no option selected.
pub open spec fn spec_selection_options(first: RawQuestionInfo) -> Seq<OptionV> {
    first.dimension_1->Some_0@.map_values(
        |o: RawSelectionInfo| (OptionV { answer: o.name@, selected: false }),
    )
}

/// The scale bounds a selection conversion installs: the first two
/// entries of the bounds list, if one is there.
pub open spec fn spec_selection_limits(first: RawQuestionInfo) -> Option<(i64, i64)> {
    match first.dimension_2 {
        Some(l) => Some((l@[0], l@[1])),
        None => None,
    }
}

/// The rule a selection conversion attaches.
pub open spec fn spec_selection_rule(first: RawQuestionInfo) -> Option<RuleV> {
    match first.input_validation {
        Some(l) => spec_rule_of(l@[0]),
        None => None,
    }
}

/// What a selection conversion produces: it fails exactly when the
/// record lacks what `spec_selection_ok` demands, else a question
/// holding the unselected options, the bounds and the rule.
pub open spec fn selection_conversion<T: IsQuestion>(
    val: Seq<RawQuestionInfo>,
    r: Result<Question<T>, ConvertError>,
) -> bool {
    match r {
        Ok(q) => spec_selection_ok(val) && q@ == (QuestionV {
            rule: spec_selection_rule(val[0]),
            options: Some(spec_selection_options(val[0])),
            limits: spec_selection_limits(val[0]),
            ..empty_question_v()
        }) && q.wf(),
        Err(e) => !spec_selection_ok(val) && e == ConvertError::Invalid,
    }
}

/// Build a selection question from a raw record.
pub fn raw_to_selection<T: IsQuestion>(val: Vec<RawQuestionInfo>) -> (r: Result<
    Question<T>,
    ConvertError,
>)
    ensures
        selection_conversion(val@, r),
{
    if val.len() == 0 {
        return Err(ConvertError::Invalid);
    }
    let first = &val[0];
    let dim1 = match &first.dimension_1 {
        Some(d) => d,
        None => {
            return Err(ConvertError::Invalid);
        },
    };
    if dim1.len() == 0 {
        return Err(ConvertError::Invalid);
    }
    let mut options: Vec<SingleSelection> = Vec::new();
    let mut i: usize = 0;
    while i < dim1.len()
        invariant
            i <= dim1@.len(),
            options@.len() == i,
            forall|j: int|
                0 <= j < i ==> #[trigger] options@[j]@ == (OptionV {
                    answer: dim1@[j].name@,
                    selected: false,
                }),
        decreases dim1@.len() - i,
    {
        options.push(SingleSelection { answer: dim1[i].name.clone(), selected: false });
        i = i + 1;
    }
    let limits = match &first.dimension_2 {
        None => None,
        Some(list) => {
            if list.len() < 2 {
                return Err(ConvertError::Invalid);
            }
            Some(SelectionLimits { lower: list[0], upper: list[1] })
        },
    };
    let validation = match &first.input_validation {
        None => None,
        Some(list) => {
            if list.len() == 0 {
                return Err(ConvertError::Invalid);
            }
            match InputValidation::try_from_raw(&list[0]) {
                Ok(v) => Some(v),
                Err(e) => {
                    return Err(e);
                },
            }
        },
    };
    let q = Question {
        marker: PhantomData,
        response: None,
        input_validation: validation,
        validation_error: None,
        inner: Some(options),
        limits,
        date_type: None,
        time_type: None,
        date_time: None,
    };
    proof {
        assert(q@.options->Some_0 =~= spec_selection_options(val@[0]));
        assert(q@ =~= (QuestionV {
            rule: spec_selection_rule(val@[0]),
            options: Some(spec_selection_options(val@[0])),
            limits: spec_selection_limits(val@[0]),
            ..empty_question_v()
        }));
    }
    Ok(q)
}

/// What a date conversion requires: a first element carrying a known
/// date subtype code.
pub open spec fn spec_date_ok(val: Seq<RawQuestionInfo>) -> bool {
    &&& val.len() > 0
    &&& val[0].date_type matches Some(code) && crate::raw::spec_date_type_of_code(code) is Some
}

/// What a date conversion produces.
pub open spec fn date_conversion<T: IsQuestion>(
    val: Seq<RawQuestionInfo>,
    r: Result<Question<T>, ConvertError>,
) -> bool {
    match r {
        Ok(q) => spec_date_ok(val) && q@ == (QuestionV {
            date_type: crate::raw::spec_date_type_of_code(val[0].date_type->Some_0),
            ..empty_question_v()
        }),
        Err(e) => !spec_date_ok(val) && e == ConvertError::Invalid,
    }
}

/// Build a date question from a raw record.
pub fn raw_to_date<T: IsQuestion>(val: Vec<RawQuestionInfo>) -> (r: Result<
    Question<T>,
    ConvertError,
>)
    ensures
        date_conversion(val@, r),
{
    if val.len() == 0 {
        return Err(ConvertError::Invalid);
    }
    let code = match val[0].date_type {
        Some(c) => c,
        None => {
            return Err(ConvertError::Invalid);
        },
    };
    let dt = match DateType::from_code(code) {
        Some(d) => d,
        None => {
            return Err(ConvertError::Invalid);
        },
    };
    let q = Question {
        marker: PhantomData,
        response: None,
        input_validation: None,
        validation_error: None,
        inner: None,
        limits: None,
        date_type: Some(dt),
        time_type: None,
        date_time: None,
    };
    proof {
        assert(q@ =~= (QuestionV {
            date_type: crate::raw::spec_date_type_of_code(val@[0].date_type->Some_0),
            ..empty_question_v()
        }));
    }
    Ok(q)
}

/// What a time conversion requires: a first element carrying a known
/// time subtype code.
pub open spec fn spec_time_ok(val: Seq<RawQuestionInfo>) -> bool {
    &&& val.len() > 0
    &&& val[0].time_type matches Some(code) && crate::raw::spec_time_type_of_code(code) is Some
}

/// What a time conversion produces.
pub open spec fn time_conversion<T: IsQuestion>(
    val: Seq<RawQuestionInfo>,
    r: Result<Question<T>, ConvertError>,
) -> bool {
    match r {
        Ok(q) => spec_time_ok(val) && q@ == (QuestionV {
            time_type: crate::raw::spec_time_type_of_code(val[0].time_type->Some_0),
            ..empty_question_v()
        }),
        Err(e) => !spec_time_ok(val) && e == ConvertError::Invalid,
    }
}

/// Build a time question from a raw record.
pub fn raw_to_time<T: IsQuestion>(val: Vec<RawQuestionInfo>) -> (r: Result<
    Question<T>,
    ConvertError,
>)
    ensures
        time_conversion(val@, r),
{
    if val.len() == 0 {
        return Err(ConvertError::Invalid);
    }
    let code = match val[0].time_type {
        Some(c) => c,
        None => {
            return Err(ConvertError::Invalid);
        },
    };
    let tt = match TimeType::from_code(code) {
        Some(t) => t,
        None => {
            return Err(ConvertError::Invalid);
        },
    };
    let q = Question {
        marker: PhantomData,
        response: None,
        input_validation: None,
        validation_error: None,
        inner: None,
        limits: None,
        date_type: None,
        time_type: Some(tt),
        date_time: None,
    };
    proof {
        assert(q@ =~= (QuestionV {
            time_type: crate::raw::spec_time_type_of_code(val@[0].time_type->Some_0),
            ..empty_question_v()
        }));
    }
    Ok(q)
}

/// Alias for the result of a fill attempt.
pub type FillResult = Result<(), FillError>;

impl Question<ShortAnswer> {
    /// Build a short-answer question from a raw record.
    pub fn try_from(value: Vec<RawQuestionInfo>) -> (r: Result<Self, ConvertError>)
        ensures
            open_ended_conversion(value@, r),
    {
        raw_to_open_ended(value)
    }

    /// Fill with a text candidate.
    pub fn fill_str(&mut self, resp: &str) -> (r: FillResult)
        requires
            old(self).wf(),
        ensures
            str_fill_post(old(self)@, final(self)@, resp@, r),
            final(self).wf(),
    {
        self.fill_str_inner(resp)
    }

    /// Fill with a numeric candidate.
    pub fn fill_number(&mut self, resp: Number) -> (r: FillResult)
        requires
            old(self).wf(),
            resp.wf(),
        ensures
            number_fill_post(old(self)@, final(self)@, resp, r),
            final(self).wf(),
    {
        self.fill_number_inner(resp)
    }
}

impl Question<LongAnswer> {
    /// Build a long-answer question from a raw record.
    pub fn try_from(value: Vec<RawQuestionInfo>) -> (r: Result<Self, ConvertError>)
        ensures
            open_ended_conversion(value@, r),
    {
        raw_to_open_ended(value)
    }

    /// Fill with a text candidate.
    pub fn fill_str(&mut self, resp: &str) -> (r: FillResult)
        requires
            old(self).wf(),
        ensures
            str_fill_post(old(self)@, final(self)@, resp@, r),
            final(self).wf(),
    {
        self.fill_str_inner(resp)
    }
}

impl Question<MultipleChoice> {
    /// Build a multiple-choice question from a raw record.
    pub fn try_from(value: Vec<RawQuestionInfo>) -> (r: Result<Self, ConvertError>)
        ensures
            selection_conversion(value@, r),
    {
        raw_to_selection(value)
    }

    /// Fill by selecting the option at a zero-based index.
    pub fn fill_option(&mut self, resp: usize) -> (r: FillResult)
        ensures
            option_fill_post(old(self)@, final(self)@, resp, r),
            final(self).wf() == old(self).wf(),
    {
        self.fill_option_inner(resp)
    }
}

impl Question<DropDown> {
    /// Build a drop-down question from a raw record.
    pub fn try_from(value: Vec<RawQuestionInfo>) -> (r: Result<Self, ConvertError>)
        ensures
            selection_conversion(value@, r),
    {
        raw_to_selection(value)
    }

    /// Fill by selecting the option at a zero-based index.
    pub fn fill_option(&mut self, resp: usize) -> (r: FillResult)
        ensures
            option_fill_post(old(self)@, final(self)@, resp, r),
            final(self).wf() == old(self).wf(),
    {
        self.fill_option_inner(resp)
    }
}

impl Question<CheckBox> {
    /// Build a check-box question from a raw record.
    pub fn try_from(value: Vec<RawQuestionInfo>) -> (r: Result<Self, ConvertError>)
        ensures
            selection_conversion(value@, r),
    {
        raw_to_selection(value)
    }

    /// Fill by selecting the option at a zero-based index.
    pub fn fill_option(&mut self, resp: usize) -> (r: FillResult)
        ensures
            option_fill_post(old(self)@, final(self)@, resp, r),
            final(self).wf() == old(self).wf(),
    {
        self.fill_option_inner(resp)
    }
}

impl Question<LinearScale> {
    /// Build a linear-scale question from a raw record.
    pub fn try_from(value: Vec<RawQuestionInfo>) -> (r: Result<Self, ConvertError>)
        ensures
            selection_conversion(value@, r),
    {
        raw_to_selection(value)
    }

    /// Fill by selecting the option at a zero-based index.
    pub fn fill_option(&mut self, resp: usize) -> (r: FillResult)
        ensures
            option_fill_post(old(self)@, final(self)@, resp, r),
            final(self).wf() == old(self).wf(),
    {
        self.fill_option_inner(resp)
    }
}

impl Question<Grid> {
    /// The grid kind has no conversion: it fails with an explicit
    /// unsupported-kind signal rather than aborting.
    pub fn try_from(value: Vec<RawQuestionInfo>) -> (r: Result<Self, ConvertError>)
        ensures
            r == Err::<Question<Grid>, ConvertError>(ConvertError::Unsupported),
    {
        let _ = value;
        Err(ConvertError::Unsupported)
    }
}

impl Question<Date> {
    /// Build a date question from a raw record.
    pub fn try_from(value: Vec<RawQuestionInfo>) -> (r: Result<Self, ConvertError>)
        ensures
            date_conversion(value@, r),
    {
        raw_to_date(value)
    }

    /// Fill with a parsed date-time value.
    pub fn fill_date(&mut self, resp: Moment) -> (r: FillResult)
        requires
            resp.wf(),
        ensures
            date_fill_post(old(self)@, final(self)@, resp, r),
            final(self).wf() == old(self).wf(),
    {
        self.fill_date_inner(resp)
    }
}

impl Question<Time> {
    /// Build a time question from a raw record.
    pub fn try_from(value: Vec<RawQuestionInfo>) -> (r: Result<Self, ConvertError>)
        ensures
            time_conversion(value@, r),
    {
        raw_to_time(value)
    }

    /// Fill with a time of day.
    pub fn fill_time(&mut self, resp: TimeOfDay) -> (r: FillResult)
        requires
            resp.wf(),
        ensures
            time_fill_post(old(self)@, final(self)@, resp, r),
            final(self).wf() == old(self).wf(),
    {
        self.fill_time_inner(resp)
    }
}

} // verus!
