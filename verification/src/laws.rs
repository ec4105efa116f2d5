//! Laws of the fill/validate engine, stated and proved once over the
//! spec-level views that the contracts use.

use vstd::prelude::*;

use crate::num::lemma_pow10_positive;
use crate::num::num_le;
use crate::num::num_lt;
use crate::num::pow10;
use crate::num::Number;
use crate::question::date_response;
use crate::question::number_fill_ok;
use crate::question::option_fill_post;
use crate::question::selection_conversion;
use crate::question::IsQuestion;
use crate::question::Question;
use crate::question::QuestionV;
use crate::raw::DateType;
use crate::raw::RawQuestionInfo;
use crate::validation::numeric_accepts;
use crate::validation::RuleV;
use crate::ConvertError;
use crate::FillError;

verus! {

/// The literal ten, as an exact decimal.
pub open spec fn ten() -> Number {
    Number { neg: false, mant: 10, scale: 0 }
}

/// An at-least-ten rule accepts exactly the values whose signed
/// mantissa reaches ten at the value's own scale; in particular a
/// whole value is accepted exactly when it is ten or more, so nine
/// and below are rejected.
pub proof fn lemma_gte_ten_threshold(v: Number)
    requires
        v.wf(),
    ensures
        number_fill_ok(Some(RuleV::NumberGTE(ten())), v) <==> v.signed_mant() >= 10 * pow10(
            v.scale as nat,
        ),
        v.scale == 0 ==> (number_fill_ok(Some(RuleV::NumberGTE(ten())), v) <==> v.signed_mant()
            >= 10),
{
    assert(pow10(0) == 1);
    assert(v.signed_mant() * pow10(0) == v.signed_mant());
}

/// A not-between rule whose lower operand is at most its upper
/// operand rejects every numeric value: it demands a value at once
/// below the lower and above the upper operand.
pub proof fn lemma_not_between_rejects(a: Number, b: Number, v: Number)
    requires
        a.wf(),
        b.wf(),
        v.wf(),
        num_le(a, b),
    ensures
        !numeric_accepts(RuleV::NumberNBT(a, b), v),
{
    if num_lt(v, a) && num_lt(b, v) {
        let sa = a.signed_mant();
        let sb = b.signed_mant();
        let sv = v.signed_mant();
        let pa = pow10(a.scale as nat) as int;
        let pb = pow10(b.scale as nat) as int;
        let pv = pow10(v.scale as nat) as int;
        lemma_pow10_positive(a.scale as nat);
        lemma_pow10_positive(b.scale as nat);
        lemma_pow10_positive(v.scale as nat);
        assert(false) by (nonlinear_arith)
            requires
                sv * pa < sa * pv,
                sb * pv < sv * pb,
                sa * pb <= sb * pa,
                pa >= 1,
                pb >= 1,
                pv >= 1,
        ;
    }
}

/// The year-included date subtypes format exactly as their plain
/// counterparts: the canonical strings coincide for every moment.
pub proof fn lemma_year_subtypes_format_alike(m: crate::moment::Moment)
    ensures
        date_response(DateType::DateYear, m) == date_response(DateType::Date, m),
        date_response(DateType::DateTimeYear, m) == date_response(DateType::DateTime, m),
{
}

/// A successful selection fill makes the chosen option's text the
/// response and marks that option selected, while every other
/// option's flag keeps whatever value it had before the call.
pub proof fn lemma_option_fill_selects(
    pre: QuestionV,
    post: QuestionV,
    idx: usize,
    r: Result<(), FillError>,
)
    requires
        option_fill_post(pre, post, idx, r),
        r is Ok,
    ensures
        pre.options matches Some(opts) && (idx as int) < opts.len(),
        post.options matches Some(opts2) && {
            let opts = pre.options->Some_0;
            &&& opts2.len() == opts.len()
            &&& post.response == Some(opts[idx as int].answer)
            &&& opts2[idx as int].answer == opts[idx as int].answer
            &&& opts2[idx as int].selected
            &&& forall|j: int| 0 <= j < opts.len() && j != idx ==> opts2[j] == opts[j]
        },
{
}

/// A selection fill with an out-of-range index fails with the
/// out-of-range error and leaves the question unchanged, response
/// included.
pub proof fn lemma_option_fill_out_of_range(
    pre: QuestionV,
    post: QuestionV,
    idx: usize,
    r: Result<(), FillError>,
)
    requires
        option_fill_post(pre, post, idx, r),
        pre.options matches Some(opts) && (idx as int) >= opts.len(),
    ensures
        r == Err::<(), FillError>(FillError::OutOfRange),
        post == pre,
{
}

/// Conversion from a raw record whose option list is empty fails, for
/// every selection kind.
pub proof fn lemma_empty_options_fail<T: IsQuestion>(
    val: Seq<RawQuestionInfo>,
    r: Result<Question<T>, ConvertError>,
)
    requires
        selection_conversion(val, r),
        val.len() > 0,
        val[0].dimension_1 matches Some(opts) && opts@.len() == 0,
    ensures
        r == Err::<Question<T>, ConvertError>(ConvertError::Invalid),
{
}

} // verus!
