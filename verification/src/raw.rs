//! The untyped ingestion payload a question is built from, and the
//! date/time subtype tags it carries.
//!
//! A raw record arrives from an external scraping collaborator and may
//! be incomplete: every field is optional, and the conversion functions
//! decide which ones a given question kind requires.

use vstd::prelude::*;

verus! {

/// One selectable option as it arrives in a raw record.
#[derive(Clone, Debug)]
pub struct RawSelectionInfo {
    /// The option's answer text.
    pub name: String,
}

/// An unparsed validation descriptor: a numeric condition code and its
/// literal operands, still in string form.
///
/// The condition codes are:
/// 1–8 the numeric comparisons (greater, at-least, less, at-most,
/// equal, unequal, between, not-between), 9 is-number, 10 is-whole;
/// 11 contains, 12 not-contains, 13 is-url, 14 is-email,
/// 15 maximum-length, 16 minimum-length; 17–20 the regex family
/// (contains, not-contains, matches, not-matches).
#[derive(Clone, Debug)]
pub struct RawInputValidation {
    /// Which predicate the descriptor names.
    pub condition: u64,
    /// The predicate's literal operands, unparsed.
    pub operands: Vec<String>,
    /// An optional message to show when validation rejects.
    pub error_text: Option<String>,
}

/// One element of the raw ingestion payload for a question.
#[derive(Clone, Debug)]
pub struct RawQuestionInfo {
    /// Validation descriptors; only the first is meaningful.
    pub input_validation: Option<Vec<RawInputValidation>>,
    /// Selection options, for the selection-family kinds.
    pub dimension_1: Option<Vec<RawSelectionInfo>>,
    /// A flat list of numeric bounds, consumed two at a time.
    pub dimension_2: Option<Vec<i64>>,
    /// The date subtype code, for date questions.
    pub date_type: Option<u64>,
    /// The time subtype code, for time questions.
    pub time_type: Option<u64>,
}

/// Which of the four canonical date formattings a date question uses.
#[derive(Clone, Copy, Debug, PartialEq, Eq, Structural)]
pub enum DateType {
    /// Year, month and day.
    Date,
    /// Identical to `Date` in the observed formatting behavior.
    DateYear,
    /// Year, month, day, hour and minute, seconds forced to zero.
    DateTime,
    /// Identical to `DateTime` in the observed formatting behavior.
    DateTimeYear,
}

/// Which of the two canonical time formattings a time question uses.
#[derive(Clone, Copy, Debug, PartialEq, Eq, Structural)]
pub enum TimeType {
    /// Hour and minute, seconds forced to zero.
    Time,
    /// Hour, minute and second, full precision, up to 23:59:59.
    Duration,
}

/// The date subtype named by a raw subtype code, if any.
pub open spec fn spec_date_type_of_code(code: u64) -> Option<DateType> {
    if code == 0 {
        Some(DateType::Date)
    } else if code == 1 {
        Some(DateType::DateYear)
    } else if code == 2 {
        Some(DateType::DateTime)
    } else if code == 3 {
        Some(DateType::DateTimeYear)
    } else {
        None
    }
}

/// The time subtype named by a raw subtype code, if any.
pub open spec fn spec_time_type_of_code(code: u64) -> Option<TimeType> {
    if code == 0 {
        Some(TimeType::Time)
    } else if code == 1 {
        Some(TimeType::Duration)
    } else {
        None
    }
}

impl DateType {
    /// Decode a raw date subtype code.
    pub fn from_code(code: u64) -> (r: Option<DateType>)
        ensures
            r == spec_date_type_of_code(code),
    {
        match code {
            0 => Some(DateType::Date),
            1 => Some(DateType::DateYear),
            2 => Some(DateType::DateTime),
            3 => Some(DateType::DateTimeYear),
            _ => None,
        }
    }
}

impl TimeType {
    /// Decode a raw time subtype code.
    pub fn from_code(code: u64) -> (r: Option<TimeType>)
        ensures
            r == spec_time_type_of_code(code),
    {
        match code {
            0 => Some(TimeType::Time),
            1 => Some(TimeType::Duration),
            _ => None,
        }
    }
}

} // verus!
