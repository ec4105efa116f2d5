//! The dispatcher: a tagged union holding one concrete question of a
//! kind known only at runtime, routing each fill operation to the
//! matching kind or rejecting it as not applicable.

use vstd::prelude::*;

use crate::moment::Moment;
use crate::moment::TimeOfDay;
use crate::num::Number;
use crate::question::date_fill_post;
use crate::question::number_fill_post;
use crate::question::option_fill_post;
use crate::question::str_fill_post;
use crate::question::time_fill_post;
use crate::question::CheckBox;
use crate::question::Date;
use crate::question::DropDown;
use crate::question::FillResult;
use crate::question::LinearScale;
use crate::question::LongAnswer;
use crate::question::MultipleChoice;
use crate::question::Question;
use crate::question::ShortAnswer;
use crate::question::Time;
use crate::FillError;

verus! {

/// One concrete question behind a uniform interface; the kind is
/// fixed for the value's lifetime.
#[derive(Debug)]
pub enum QuestionType {
    /// A short-answer question.
    ShortAnswer(Question<ShortAnswer>),
    /// A long-answer question.
    LongAnswer(Question<LongAnswer>),
    /// A multiple-choice question.
    MultipleChoice(Question<MultipleChoice>),
    /// A drop-down question.
    DropDown(Question<DropDown>),
    /// A check-box question.
    CheckBox(Question<CheckBox>),
    /// A linear-scale question.
    LinearScale(Question<LinearScale>),
    /// The grid kind, which carries no supported question.
    Grid,
    /// A date question.
    Date(Question<Date>),
    /// A time question.
    Time(Question<Time>),
}

impl QuestionType {
    /// Well-formed: the held question is well-formed.
    pub open spec fn wf(self) -> bool {
        match self {
            QuestionType::ShortAnswer(q) => q.wf(),
            QuestionType::LongAnswer(q) => q.wf(),
            QuestionType::MultipleChoice(q) => q.wf(),
            QuestionType::DropDown(q) => q.wf(),
            QuestionType::CheckBox(q) => q.wf(),
            QuestionType::LinearScale(q) => q.wf(),
            QuestionType::Grid => true,
            QuestionType::Date(q) => q.wf(),
            QuestionType::Time(q) => q.wf(),
        }
    }

    /// Route a text fill: only the open-ended kinds take it; every
    /// other kind fails as not applicable, unchanged.
    pub fn fill_str(&mut self, resp: &str) -> (r: FillResult)
        requires
            old(self).wf(),
        ensures
            match *old(self) {
                QuestionType::ShortAnswer(pre) => {
                    &&& *final(self) matches QuestionType::ShortAnswer(post)
                    &&& str_fill_post(pre@, post@, resp@, r)
                },
                QuestionType::LongAnswer(pre) => {
                    &&& *final(self) matches QuestionType::LongAnswer(post)
                    &&& str_fill_post(pre@, post@, resp@, r)
                },
                _ => r == Err::<(), FillError>(FillError::NotApplicable) && *final(self) == *old(
                    self,
                ),
            },
            final(self).wf(),
    {
        match self {
            QuestionType::ShortAnswer(qn) => qn.fill_str(resp),
            QuestionType::LongAnswer(qn) => qn.fill_str(resp),
            _ => Err(FillError::NotApplicable),
        }
    }

    /// Route a numeric fill: only the open-ended kinds take it.
    pub fn fill_number(&mut self, resp: Number) -> (r: FillResult)
        requires
            old(self).wf(),
            resp.wf(),
        ensures
            match *old(self) {
                QuestionType::ShortAnswer(pre) => {
                    &&& *final(self) matches QuestionType::ShortAnswer(post)
                    &&& number_fill_post(pre@, post@, resp, r)
                },
                QuestionType::LongAnswer(pre) => {
                    &&& *final(self) matches QuestionType::LongAnswer(post)
                    &&& number_fill_post(pre@, post@, resp, r)
                },
                _ => r == Err::<(), FillError>(FillError::NotApplicable) && *final(self) == *old(
                    self,
                ),
            },
            final(self).wf(),
    {
        match self {
            QuestionType::ShortAnswer(qn) => qn.fill_number_inner(resp),
            QuestionType::LongAnswer(qn) => qn.fill_number_inner(resp),
            _ => Err(FillError::NotApplicable),
        }
    }

    /// Route a selection fill: only the selection kinds take it.
    pub fn fill_option(&mut self, resp: usize) -> (r: FillResult)
        requires
            old(self).wf(),
        ensures
            match *old(self) {
                QuestionType::MultipleChoice(pre) => {
                    &&& *final(self) matches QuestionType::MultipleChoice(post)
                    &&& option_fill_post(pre@, post@, resp, r)
                },
                QuestionType::DropDown(pre) => {
                    &&& *final(self) matches QuestionType::DropDown(post)
                    &&& option_fill_post(pre@, post@, resp, r)
                },
                QuestionType::CheckBox(pre) => {
                    &&& *final(self) matches QuestionType::CheckBox(post)
                    &&& option_fill_post(pre@, post@, resp, r)
                },
                QuestionType::LinearScale(pre) => {
                    &&& *final(self) matches QuestionType::LinearScale(post)
                    &&& option_fill_post(pre@, post@, resp, r)
                },
                _ => r == Err::<(), FillError>(FillError::NotApplicable) && *final(self) == *old(
                    self,
                ),
            },
            final(self).wf(),
    {
        match self {
            QuestionType::MultipleChoice(qn) => qn.fill_option(resp),
            QuestionType::DropDown(qn) => qn.fill_option(resp),
            QuestionType::CheckBox(qn) => qn.fill_option(resp),
            QuestionType::LinearScale(qn) => qn.fill_option(resp),
            _ => Err(FillError::NotApplicable),
        }
    }

    /// Route a date fill: only the date kind takes it.
    pub fn fill_date(&mut self, resp: Moment) -> (r: FillResult)
        requires
            old(self).wf(),
            resp.wf(),
        ensures
            match *old(self) {
                QuestionType::Date(pre) => {
                    &&& *final(self) matches QuestionType::Date(post)
                    &&& date_fill_post(pre@, post@, resp, r)
                },
                _ => r == Err::<(), FillError>(FillError::NotApplicable) && *final(self) == *old(
                    self,
                ),
            },
            final(self).wf(),
    {
        match self {
            QuestionType::Date(qn) => qn.fill_date(resp),
            _ => Err(FillError::NotApplicable),
        }
    }

    /// Route a time fill: only the time kind takes it.
    pub fn fill_time(&mut self, resp: TimeOfDay) -> (r: FillResult)
        requires
            old(self).wf(),
            resp.wf(),
        ensures
            match *old(self) {
                QuestionType::Time(pre) => {
                    &&& *final(self) matches QuestionType::Time(post)
                    &&& time_fill_post(pre@, post@, resp, r)
                },
                _ => r == Err::<(), FillError>(FillError::NotApplicable) && *final(self) == *old(
                    self,
                ),
            },
            final(self).wf(),
    {
        match self {
            QuestionType::Time(qn) => qn.fill_time(resp),
            _ => Err(FillError::NotApplicable),
        }
    }
}

} // verus!
