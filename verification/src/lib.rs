//! A small feed-forward neural network library, verified with Verus.
//!
//! Every scalar the engine touches is a fixed-point number: an `i64` holding
//! millionths, so that `1_000_000` stands for one. All arithmetic saturates at
//! the `i64` range instead of wrapping or trapping, which keeps every
//! operation total and lets the contracts describe each result exactly.

pub mod activation_functions;
pub mod error_functions;
pub mod fixed;
pub mod layer;
pub mod network;
pub mod network_model;
pub mod neuron;

use vstd::prelude::*;

verus! {

pub fn add(left: usize, right: usize) -> (r: usize)
    requires
        left + right <= usize::MAX,
    ensures
        r == left + right,
{
    left + right
}

} // verus!
