//! The activation catalog: a closed set of pure scalar functions that a
//! neuron may apply to its weighted sum. A neuron stores two tags, one used
//! as the activation itself and one used as its derivative, so any pairing
//! the caller chooses at construction time is possible.

use crate::fixed::SCALE;
use vstd::prelude::*;

verus! {

/// A tag naming one scalar function of the catalog.
#[derive(Debug, Clone, Copy, PartialEq, Eq, Structural)]
pub enum ActivationFunction {
    Identity,
    IdentityPrime,
    Relu,
    ReluPrime,
}

/// What each catalog function returns on a fixed-point argument.
pub open spec fn act_apply_s(f: ActivationFunction, x: int) -> int {
    match f {
        ActivationFunction::Identity => x,
        ActivationFunction::IdentityPrime => SCALE as int,
        ActivationFunction::Relu => if x > 0 {
            x
        } else {
            0
        },
        ActivationFunction::ReluPrime => if x > 0 {
            SCALE as int
        } else {
            0
        },
    }
}

impl ActivationFunction {
    /// Apply the function this tag names.
    pub fn apply(self, value: i64) -> (r: i64)
        ensures
            r == act_apply_s(self, value as int),
    {
        match self {
            ActivationFunction::Identity => identity(value),
            ActivationFunction::IdentityPrime => identity_prime(value),
            ActivationFunction::Relu => relu(value),
            ActivationFunction::ReluPrime => relu_prime(value),
        }
    }
}

/// Rectified linear unit: the positive part of the argument.
pub fn relu(value: i64) -> (r: i64)
    ensures
        r == act_apply_s(ActivationFunction::Relu, value as int),
        r == if value > 0 {
            value as int
        } else {
            0
        },
{
    match value > 0 {
        true => value,
        false => 0,
    }
}

/// Derivative of the rectified linear unit: one above zero, zero elsewhere.
pub fn relu_prime(value: i64) -> (r: i64)
    ensures
        r == act_apply_s(ActivationFunction::ReluPrime, value as int),
        r == if value > 0 {
            SCALE as int
        } else {
            0
        },
{
    match value > 0 {
        true => SCALE,
        false => 0,
    }
}

/// The identity function.
pub fn identity(value: i64) -> (r: i64)
    ensures
        r == act_apply_s(ActivationFunction::Identity, value as int),
        r == value,
{
    value
}

/// Derivative of the identity function: the constant one.
pub fn identity_prime(_value: i64) -> (r: i64)
    ensures
        r == act_apply_s(ActivationFunction::IdentityPrime, _value as int),
        r == SCALE,
{
    SCALE
}

} // verus!
