//! The closed set of validation predicates a question can carry, a
//! spec-level view of it, and the fallible conversion from a raw
//! descriptor.

use vstd::prelude::*;

use crate::ConvertError;
use crate::num::num_eq;
use crate::num::num_le;
use crate::num::num_lt;
use crate::num::parse_number;
use crate::num::parseable;
use crate::num::parsed_number;
use crate::num::Number;
use crate::raw::RawInputValidation;

verus! {

/// A validation predicate with its literal operands.
#[derive(Clone, Debug)]
pub enum InputValidation {
    /// Accept a number strictly greater than the operand.
    NumberGT(Number),
    /// Accept a number at least the operand.
    NumberGTE(Number),
    /// Accept a number strictly less than the operand.
    NumberLT(Number),
    /// Accept a number at most the operand.
    NumberLTE(Number),
    /// Accept a number equal to the operand.
    NumberEQ(Number),
    /// Accept a number unequal to the operand.
    NumberNEQ(Number),
    /// Accept a number between the operands, inclusive.
    NumberBT(Number, Number),
    /// Accept a number below the first operand and above the second;
    /// for ordered operands the conjunction is unsatisfiable.
    NumberNBT(Number, Number),
    /// Accept any number.
    NumberIsNumber,
    /// Accept a number with no fractional component.
    NumberIsWhole,
    /// Accept text containing the operand.
    TextContains(String),
    /// Accept text not containing the operand.
    TextNotContains(String),
    /// Accept text that is a well-formed URL.
    TextIsUrl,
    /// Accept text matching the fixed email pattern.
    TextIsEmail,
    /// Accept text of at most the operand's length.
    LengthMaximumChars(u64),
    /// Accept text of at least the operand's length.
    LengthMinimumChars(u64),
    /// Declared but not implemented: regex containment.
    RegexContains(String),
    /// Declared but not implemented: regex non-containment.
    RegexNotContains(String),
    /// Declared but not implemented: regex full match.
    RegexMatches(String),
    /// Declared but not implemented: regex full non-match.
    RegexNotMatches(String),
}

/// The spec-level form of a validation predicate: text operands are
/// character sequences.
pub ghost enum RuleV {
    /// Strictly greater than the operand.
    NumberGT(Number),
    /// At least the operand.
    NumberGTE(Number),
    /// Strictly less than the operand.
    NumberLT(Number),
    /// At most the operand.
    NumberLTE(Number),
    /// Equal to the operand.
    NumberEQ(Number),
    /// Unequal to the operand.
    NumberNEQ(Number),
    /// Between the operands, inclusive.
    NumberBT(Number, Number),
    /// Below the first operand and above the second.
    NumberNBT(Number, Number),
    /// Any number.
    NumberIsNumber,
    /// A number with no fractional component.
    NumberIsWhole,
    /// Text containing the operand.
    TextContains(Seq<char>),
    /// Text not containing the operand.
    TextNotContains(Seq<char>),
    /// Text that is a well-formed URL.
    TextIsUrl,
    /// Text matching the fixed email pattern.
    TextIsEmail,
    /// Text of at most the operand's length.
    LengthMaximumChars(u64),
    /// Text of at least the operand's length.
    LengthMinimumChars(u64),
    /// Declared but not implemented.
    RegexContains(Seq<char>),
    /// Declared but not implemented.
    RegexNotContains(Seq<char>),
    /// Declared but not implemented.
    RegexMatches(Seq<char>),
    /// Declared but not implemented.
    RegexNotMatches(Seq<char>),
}

impl View for InputValidation {
    type V = RuleV;

    open spec fn view(&self) -> RuleV {
        match self {
            InputValidation::NumberGT(n) => RuleV::NumberGT(*n),
            InputValidation::NumberGTE(n) => RuleV::NumberGTE(*n),
            InputValidation::NumberLT(n) => RuleV::NumberLT(*n),
            InputValidation::NumberLTE(n) => RuleV::NumberLTE(*n),
            InputValidation::NumberEQ(n) => RuleV::NumberEQ(*n),
            InputValidation::NumberNEQ(n) => RuleV::NumberNEQ(*n),
            InputValidation::NumberBT(a, b) => RuleV::NumberBT(*a, *b),
            InputValidation::NumberNBT(a, b) => RuleV::NumberNBT(*a, *b),
            InputValidation::NumberIsNumber => RuleV::NumberIsNumber,
            InputValidation::NumberIsWhole => RuleV::NumberIsWhole,
            InputValidation::TextContains(t) => RuleV::TextContains(t@),
            InputValidation::TextNotContains(t) => RuleV::TextNotContains(t@),
            InputValidation::TextIsUrl => RuleV::TextIsUrl,
            InputValidation::TextIsEmail => RuleV::TextIsEmail,
            InputValidation::LengthMaximumChars(n) => RuleV::LengthMaximumChars(*n),
            InputValidation::LengthMinimumChars(n) => RuleV::LengthMinimumChars(*n),
            InputValidation::RegexContains(t) => RuleV::RegexContains(t@),
            InputValidation::RegexNotContains(t) => RuleV::RegexNotContains(t@),
            InputValidation::RegexMatches(t) => RuleV::RegexMatches(t@),
            InputValidation::RegexNotMatches(t) => RuleV::RegexNotMatches(t@),
        }
    }
}

/// Every numeric operand of the rule is well-formed.
pub open spec fn rule_wf(v: RuleV) -> bool {
    match v {
        RuleV::NumberGT(n) => n.wf(),
        RuleV::NumberGTE(n) => n.wf(),
        RuleV::NumberLT(n) => n.wf(),
        RuleV::NumberLTE(n) => n.wf(),
        RuleV::NumberEQ(n) => n.wf(),
        RuleV::NumberNEQ(n) => n.wf(),
        RuleV::NumberBT(a, b) => a.wf() && b.wf(),
        RuleV::NumberNBT(a, b) => a.wf() && b.wf(),
        _ => true,
    }
}

/// The rules that speak about a numeric candidate.
pub open spec fn is_numeric_rule(v: RuleV) -> bool {
    match v {
        RuleV::NumberGT(_) => true,
        RuleV::NumberGTE(_) => true,
        RuleV::NumberLT(_) => true,
        RuleV::NumberLTE(_) => true,
        RuleV::NumberEQ(_) => true,
        RuleV::NumberNEQ(_) => true,
        RuleV::NumberBT(_, _) => true,
        RuleV::NumberNBT(_, _) => true,
        RuleV::NumberIsNumber => true,
        RuleV::NumberIsWhole => true,
        _ => false,
    }
}

/// The declared-but-unimplemented regex family.
pub open spec fn is_regex_rule(v: RuleV) -> bool {
    match v {
        RuleV::RegexContains(_) => true,
        RuleV::RegexNotContains(_) => true,
        RuleV::RegexMatches(_) => true,
        RuleV::RegexNotMatches(_) => true,
        _ => false,
    }
}

/// Whether a numeric rule accepts a numeric candidate. The
/// not-between rule demands a value below the lower operand and above
/// the upper one at once, exactly as implemented.
pub open spec fn numeric_accepts(v: RuleV, n: Number) -> bool {
    match v {
        RuleV::NumberGT(m) => num_lt(m, n),
        RuleV::NumberGTE(m) => num_le(m, n),
        RuleV::NumberLT(m) => num_lt(n, m),
        RuleV::NumberLTE(m) => num_le(n, m),
        RuleV::NumberEQ(m) => num_eq(n, m),
        RuleV::NumberNEQ(m) => !num_eq(n, m),
        RuleV::NumberBT(a, b) => num_le(a, n) && num_le(n, b),
        RuleV::NumberNBT(a, b) => num_lt(n, a) && num_lt(b, n),
        RuleV::NumberIsNumber => true,
        RuleV::NumberIsWhole => n.spec_is_whole(),
        _ => false,
    }
}

/// Decide whether a numeric rule accepts a candidate number.
pub fn numeric_check(v: &InputValidation, n: &Number) -> (r: bool)
    requires
        rule_wf(v@),
        is_numeric_rule(v@),
        n.wf(),
    ensures
        r == numeric_accepts(v@, *n),
{
    match v {
        InputValidation::NumberGT(m) => crate::num::num_lt_exec(m, n),
        InputValidation::NumberGTE(m) => crate::num::num_le_exec(m, n),
        InputValidation::NumberLT(m) => crate::num::num_lt_exec(n, m),
        InputValidation::NumberLTE(m) => crate::num::num_le_exec(n, m),
        InputValidation::NumberEQ(m) => crate::num::num_eq_exec(n, m),
        InputValidation::NumberNEQ(m) => !crate::num::num_eq_exec(n, m),
        InputValidation::NumberBT(a, b) => crate::num::num_le_exec(a, n) && crate::num::num_le_exec(
            n,
            b,
        ),
        InputValidation::NumberNBT(a, b) => crate::num::num_lt_exec(n, a)
            && crate::num::num_lt_exec(b, n),
        InputValidation::NumberIsNumber => true,
        InputValidation::NumberIsWhole => n.is_whole(),
        _ => {
            proof {
                assert(false);
            }
            false
        },
    }
}

/// The first operand parsed as a number, if it is there and parses.
pub open spec fn spec_first_num(raw: RawInputValidation) -> Option<Number> {
    if raw.operands@.len() >= 1 && parseable(raw.operands@[0]@) {
        Some(parsed_number(raw.operands@[0]@))
    } else {
        None
    }
}

/// The second operand parsed as a number, if it is there and parses.
pub open spec fn spec_second_num(raw: RawInputValidation) -> Option<Number> {
    if raw.operands@.len() >= 2 && parseable(raw.operands@[1]@) {
        Some(parsed_number(raw.operands@[1]@))
    } else {
        None
    }
}

/// The first operand as a length bound: a whole, non-negative number.
pub open spec fn spec_first_len(raw: RawInputValidation) -> Option<u64> {
    match spec_first_num(raw) {
        Some(n) => if n.scale == 0 && !n.neg {
            Some(n.mant)
        } else {
            None
        },
        None => None,
    }
}

/// The rule a raw descriptor stands for, if its condition code is
/// known and its operands are present and parse.
pub open spec fn spec_rule_of(raw: RawInputValidation) -> Option<RuleV> {
    let c = raw.condition;
    if c == 1 {
        match spec_first_num(raw) {
            Some(n) => Some(RuleV::NumberGT(n)),
            None => None,
        }
    } else if c == 2 {
        match spec_first_num(raw) {
            Some(n) => Some(RuleV::NumberGTE(n)),
            None => None,
        }
    } else if c == 3 {
        match spec_first_num(raw) {
            Some(n) => Some(RuleV::NumberLT(n)),
            None => None,
        }
    } else if c == 4 {
        match spec_first_num(raw) {
            Some(n) => Some(RuleV::NumberLTE(n)),
            None => None,
        }
    } else if c == 5 {
        match spec_first_num(raw) {
            Some(n) => Some(RuleV::NumberEQ(n)),
            None => None,
        }
    } else if c == 6 {
        match spec_first_num(raw) {
            Some(n) => Some(RuleV::NumberNEQ(n)),
            None => None,
        }
    } else if c == 7 {
        match (spec_first_num(raw), spec_second_num(raw)) {
            (Some(a), Some(b)) => Some(RuleV::NumberBT(a, b)),
            _ => None,
        }
    } else if c == 8 {
        match (spec_first_num(raw), spec_second_num(raw)) {
            (Some(a), Some(b)) => Some(RuleV::NumberNBT(a, b)),
            _ => None,
        }
    } else if c == 9 {
        Some(RuleV::NumberIsNumber)
    } else if c == 10 {
        Some(RuleV::NumberIsWhole)
    } else if c == 11 {
        if raw.operands@.len() >= 1 {
            Some(RuleV::TextContains(raw.operands@[0]@))
        } else {
            None
        }
    } else if c == 12 {
        if raw.operands@.len() >= 1 {
            Some(RuleV::TextNotContains(raw.operands@[0]@))
        } else {
            None
        }
    } else if c == 13 {
        Some(RuleV::TextIsUrl)
    } else if c == 14 {
        Some(RuleV::TextIsEmail)
    } else if c == 15 {
        match spec_first_len(raw) {
            Some(n) => Some(RuleV::LengthMaximumChars(n)),
            None => None,
        }
    } else if c == 16 {
        match spec_first_len(raw) {
            Some(n) => Some(RuleV::LengthMinimumChars(n)),
            None => None,
        }
    } else if c == 17 {
        if raw.operands@.len() >= 1 {
            Some(RuleV::RegexContains(raw.operands@[0]@))
        } else {
            None
        }
    } else if c == 18 {
        if raw.operands@.len() >= 1 {
            Some(RuleV::RegexNotContains(raw.operands@[0]@))
        } else {
            None
        }
    } else if c == 19 {
        if raw.operands@.len() >= 1 {
            Some(RuleV::RegexMatches(raw.operands@[0]@))
        } else {
            None
        }
    } else if c == 20 {
        if raw.operands@.len() >= 1 {
            Some(RuleV::RegexNotMatches(raw.operands@[0]@))
        } else {
            None
        }
    } else {
        None
    }
}

impl InputValidation {
    /// The first operand parsed as a number, if any.
    fn first_num(raw: &RawInputValidation) -> (r: Option<Number>)
        ensures
            r == spec_first_num(*raw),
            r matches Some(n) ==> n.wf(),
    {
        if raw.operands.len() >= 1 {
            parse_number(raw.operands[0].as_str())
        } else {
            None
        }
    }

    /// The second operand parsed as a number, if any.
    fn second_num(raw: &RawInputValidation) -> (r: Option<Number>)
        ensures
            r == spec_second_num(*raw),
            r matches Some(n) ==> n.wf(),
    {
        if raw.operands.len() >= 2 {
            parse_number(raw.operands[1].as_str())
        } else {
            None
        }
    }

    /// The first operand as a length bound, if it is whole and
    /// non-negative.
    fn first_len(raw: &RawInputValidation) -> (r: Option<u64>)
        ensures
            r == spec_first_len(*raw),
    {
        match Self::first_num(raw) {
            Some(n) => if n.scale == 0 && !n.neg {
                Some(n.mant)
            } else {
                None
            },
            None => None,
        }
    }

    /// The first text operand, if present.
    fn first_text(raw: &RawInputValidation) -> (r: Option<String>)
        ensures
            match r {
                Some(t) => raw.operands@.len() >= 1 && t@ == raw.operands@[0]@,
                None => raw.operands@.len() == 0,
            },
    {
        if raw.operands.len() >= 1 {
            Some(raw.operands[0].clone())
        } else {
            None
        }
    }

    /// Convert a raw descriptor into a validation rule; fail when the
    /// condition code is unknown or a required operand is missing or
    /// malformed.
    pub fn try_from_raw(raw: &RawInputValidation) -> (r: Result<InputValidation, ConvertError>)
        ensures
            match r {
                Ok(v) => spec_rule_of(*raw) == Some(v@) && rule_wf(v@),
                Err(e) => spec_rule_of(*raw) is None && e == ConvertError::Invalid,
            },
    {
        let c = raw.condition;
        match c {
            1 => match Self::first_num(raw) {
                Some(n) => Ok(InputValidation::NumberGT(n)),
                None => Err(ConvertError::Invalid),
            },
            2 => match Self::first_num(raw) {
                Some(n) => Ok(InputValidation::NumberGTE(n)),
                None => Err(ConvertError::Invalid),
            },
            3 => match Self::first_num(raw) {
                Some(n) => Ok(InputValidation::NumberLT(n)),
                None => Err(ConvertError::Invalid),
            },
            4 => match Self::first_num(raw) {
                Some(n) => Ok(InputValidation::NumberLTE(n)),
                None => Err(ConvertError::Invalid),
            },
            5 => match Self::first_num(raw) {
                Some(n) => Ok(InputValidation::NumberEQ(n)),
                None => Err(ConvertError::Invalid),
            },
            6 => match Self::first_num(raw) {
                Some(n) => Ok(InputValidation::NumberNEQ(n)),
                None => Err(ConvertError::Invalid),
            },
            7 => match (Self::first_num(raw), Self::second_num(raw)) {
                (Some(a), Some(b)) => Ok(InputValidation::NumberBT(a, b)),
                _ => Err(ConvertError::Invalid),
            },
            8 => match (Self::first_num(raw), Self::second_num(raw)) {
                (Some(a), Some(b)) => Ok(InputValidation::NumberNBT(a, b)),
                _ => Err(ConvertError::Invalid),
            },
            9 => Ok(InputValidation::NumberIsNumber),
            10 => Ok(InputValidation::NumberIsWhole),
            11 => match Self::first_text(raw) {
                Some(t) => Ok(InputValidation::TextContains(t)),
                None => Err(ConvertError::Invalid),
            },
            12 => match Self::first_text(raw) {
                Some(t) => Ok(InputValidation::TextNotContains(t)),
                None => Err(ConvertError::Invalid),
            },
            13 => Ok(InputValidation::TextIsUrl),
            14 => Ok(InputValidation::TextIsEmail),
            15 => match Self::first_len(raw) {
                Some(n) => Ok(InputValidation::LengthMaximumChars(n)),
                None => Err(ConvertError::Invalid),
            },
            16 => match Self::first_len(raw) {
                Some(n) => Ok(InputValidation::LengthMinimumChars(n)),
                None => Err(ConvertError::Invalid),
            },
            17 => match Self::first_text(raw) {
                Some(t) => Ok(InputValidation::RegexContains(t)),
                None => Err(ConvertError::Invalid),
            },
            18 => match Self::first_text(raw) {
                Some(t) => Ok(InputValidation::RegexNotContains(t)),
                None => Err(ConvertError::Invalid),
            },
            19 => match Self::first_text(raw) {
                Some(t) => Ok(InputValidation::RegexMatches(t)),
                None => Err(ConvertError::Invalid),
            },
            20 => match Self::first_text(raw) {
                Some(t) => Ok(InputValidation::RegexNotMatches(t)),
                None => Err(ConvertError::Invalid),
            },
            _ => Err(ConvertError::Invalid),
        }
    }
}

} // verus!
