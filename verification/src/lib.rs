//! A verified model of a single survey-form question: a fixed kind tag,
//! a validation rule attached at construction, and a fill/validate engine
//! that produces the canonical response string for the submission protocol.

use vstd::prelude::*;

pub mod form;
pub mod laws;
pub mod moment;
pub mod nav;
pub mod num;
pub mod question;
pub mod raw;
pub mod roster;
pub mod text;
pub mod validation;

verus! {

/// The uniform success/failure signal of a fill attempt.
///
/// Callers only need the binary outcome; the variants carry the
/// diagnostic distinctions that must not be silent: an out-of-range
/// selection, an operation routed to a kind that does not support it,
/// and a declared-but-unimplemented validation predicate.
#[derive(Clone, Copy, PartialEq, Eq, Structural, Debug)]
pub enum FillError {
    /// The attached validation predicate evaluated to false.
    FailedValidation,
    /// A selection index does not name an option.
    OutOfRange,
    /// The operation is not applicable to the entity's kind.
    NotApplicable,
    /// The validation predicate is declared but not implemented.
    NotImplemented,
    /// A field the operation needs was never supplied.
    MissingField,
}

/// Why a conversion from a raw record to a typed question failed.
#[derive(Clone, Copy, PartialEq, Eq, Structural, Debug)]
pub enum ConvertError {
    /// A required raw field is missing or malformed.
    Invalid,
    /// The question kind has no conversion (the grid kind).
    Unsupported,
}

} // verus!
