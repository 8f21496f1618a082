//! The loss catalog: pure scalar functions of (target, prediction) returning
//! the derivative of the loss with respect to the prediction. The network
//! stores a tag and applies it to the output of each forward pass.

use crate::fixed::{fx_sub, fx_sub_s, in_i64, sat64};
use vstd::prelude::*;

verus! {

/// A tag naming one loss-derivative function of the catalog.
#[derive(Debug, Clone, Copy, PartialEq, Eq, Structural)]
pub enum ErrorFunction {
    SquaredLoss,
}

/// What each catalog loss derivative returns: for the squared loss, minus
/// twice the (saturating) difference between target and prediction.
pub open spec fn err_apply_s(f: ErrorFunction, aim: int, final_answer: int) -> int {
    match f {
        ErrorFunction::SquaredLoss => sat64(-2 * fx_sub_s(aim, final_answer)),
    }
}

impl ErrorFunction {
    /// Apply the loss derivative this tag names.
    pub fn apply(self, aim: i64, final_answer: i64) -> (r: i64)
        ensures
            r == err_apply_s(self, aim as int, final_answer as int),
    {
        match self {
            ErrorFunction::SquaredLoss => squared_loss_prime(aim, final_answer),
        }
    }
}

/// Derivative of the squared loss `(aim - answer)^2` with respect to the
/// answer: `-2 * (aim - answer)`, saturating at the `i64` range.
pub fn squared_loss_prime(aim: i64, final_answer: i64) -> (r: i64)
    ensures
        r == err_apply_s(ErrorFunction::SquaredLoss, aim as int, final_answer as int),
{
    let diff: i64 = fx_sub(aim, final_answer);
    let wide: i128 = -(diff as i128) - (diff as i128);
    proof {
        assert(wide == -2 * (diff as int));
    }
    if wide > i64::MAX as i128 {
        i64::MAX
    } else if wide < i64::MIN as i128 {
        i64::MIN
    } else {
        wide as i64
    }
}

} // verus!
