//! A single neuron: a weight vector, a bias, a cached error signal, and two
//! activation tags (the function and its derivative). The neuron computes
//! its own output, its own chain-rule error, and its own gradient step.
//!
//! The weighted sum walks the weight and input vectors in step and stops at
//! the shorter one, so every operation is total; callers that care about
//! widths state them in their own contracts.

use crate::activation_functions::{act_apply_s, ActivationFunction};
use crate::fixed::{fx_add, fx_add_s, fx_mul, fx_mul_s, fx_sub, fx_sub_s, in_i64, SCALE};
use crate::network_model::NetworkError;
use rand::Rng;
use vstd::prelude::*;

verus! {

#[derive(Debug)]
pub struct Neuron {
    pub weights: Vec<i64>,
    pub bias: i64,
    pub current_error: i64,
    pub learning_rate: i64,
    pub activation_function: ActivationFunction,
    pub activation_function_prime: ActivationFunction,
}

/// Left fold of the element-wise products of `ws` and `xs` onto `acc`,
/// walking both sequences in step and stopping at the shorter one.
pub open spec fn mac_s(ws: Seq<i64>, xs: Seq<i64>, acc: int) -> int
    decreases ws.len(),
{
    if ws.len() == 0 || xs.len() == 0 {
        acc
    } else {
        mac_s(ws.skip(1), xs.skip(1), fx_add_s(acc, fx_mul_s(ws[0] as int, xs[0] as int)))
    }
}

/// The neuron's weighted sum: bias plus the dot product of weights and
/// inputs.
pub open spec fn pre_activation_s(n: Neuron, xs: Seq<i64>) -> int {
    mac_s(n.weights@, xs, n.bias as int)
}

/// The neuron's output: its activation applied to its weighted sum.
pub open spec fn compute_s(n: Neuron, xs: Seq<i64>) -> int {
    act_apply_s(n.activation_function, pre_activation_s(n, xs))
}

/// The chain-rule error signal: how strongly each downstream neuron weighted
/// this neuron's output, times the activation derivative at the weighted sum.
pub open spec fn calc_error_s(n: Neuron, xs: Seq<i64>, next_errors: Seq<i64>, next_weights: Seq<i64>) -> int {
    fx_mul_s(
        mac_s(next_errors, next_weights, 0),
        act_apply_s(n.activation_function_prime, pre_activation_s(n, xs)),
    )
}

/// One gradient step on a single weight fed by input `x`.
pub open spec fn stepped_weight_s(n: Neuron, w: int, x: int) -> int {
    fx_sub_s(w, fx_mul_s(fx_mul_s(n.learning_rate as int, n.current_error as int), x))
}

/// One gradient step on the bias.
pub open spec fn stepped_bias_s(n: Neuron) -> int {
    fx_sub_s(n.bias as int, fx_mul_s(n.learning_rate as int, n.current_error as int))
}

/// How a whole neuron looks after one gradient step fed by `xs`: weights and
/// bias move against the cached error; everything else stays.
pub open spec fn neuron_stepped(pre: Neuron, post: Neuron, xs: Seq<i64>) -> bool {
    let len = if pre.weights@.len() <= xs.len() {
        pre.weights@.len() as int
    } else {
        xs.len() as int
    };
    &&& post.weights@.len() == len
    &&& forall|k: int|
        0 <= k < len ==> post.weights@[k] == stepped_weight_s(pre, pre.weights@[k] as int, xs[k] as int)
    &&& post.bias == stepped_bias_s(pre)
    &&& post.current_error == pre.current_error
    &&& post.learning_rate == pre.learning_rate
    &&& post.activation_function == pre.activation_function
    &&& post.activation_function_prime == pre.activation_function_prime
}

/// Relies on rand's `Rng::gen_range` over `0..bound`: the sample lies in the
/// half-open range, and the call panics only on an empty range, which
/// `bound > 0` rules out.
#[verifier::external_body]
fn random_below(bound: i64) -> (r: i64)
    requires
        0 < bound,
    ensures
        0 <= r < bound,
{
    rand::thread_rng().gen_range(0..bound)
}

impl Neuron {
    /// A fresh neuron of the given fan-in: weights and bias drawn uniformly
    /// from `[0, 1)` in fixed-point units, error cleared.
    pub fn new(
        number_of_weights: usize,
        learning_rate: i64,
        activation_function: ActivationFunction,
        activation_function_prime: ActivationFunction,
    ) -> (r: Neuron)
        ensures
            r.weights@.len() == number_of_weights,
            forall|k: int| 0 <= k < number_of_weights ==> 0 <= #[trigger] r.weights@[k] < SCALE,
            0 <= r.bias < SCALE,
            r.current_error == 0,
            r.learning_rate == learning_rate,
            r.activation_function == activation_function,
            r.activation_function_prime == activation_function_prime,
    {
        let mut weights: Vec<i64> = Vec::new();
        let mut i: usize = 0;
        while i < number_of_weights
            invariant
                i <= number_of_weights,
                weights@.len() == i,
                forall|k: int| 0 <= k < i ==> 0 <= #[trigger] weights@[k] < SCALE,
            decreases number_of_weights - i,
        {
            let new_weight = random_below(SCALE);
            weights.push(new_weight);
            i = i + 1;
        }

        let bias = random_below(SCALE);
        let current_error: i64 = 0;

        Neuron {
            weights,
            bias,
            current_error,
            learning_rate,
            activation_function,
            activation_function_prime,
        }
    }

    /// A neuron with every parameter chosen by the caller, for reproducible
    /// construction.
    pub fn with_parameters(
        weights: Vec<i64>,
        bias: i64,
        learning_rate: i64,
        activation_function: ActivationFunction,
        activation_function_prime: ActivationFunction,
    ) -> (r: Neuron)
        ensures
            r.weights@ == weights@,
            r.bias == bias,
            r.current_error == 0,
            r.learning_rate == learning_rate,
            r.activation_function == activation_function,
            r.activation_function_prime == activation_function_prime,
    {
        Neuron {
            weights,
            bias,
            current_error: 0,
            learning_rate,
            activation_function,
            activation_function_prime,
        }
    }

    pub(crate) fn multiply_and_accumulate(&self, inputs: &Vec<i64>) -> (r: i64)
        ensures
            r == pre_activation_s(*self, inputs@),
    {
        let n: usize = if self.weights.len() < inputs.len() {
            self.weights.len()
        } else {
            inputs.len()
        };
        let mut acc: i64 = self.bias;
        let mut i: usize = 0;
        proof {
            assert(self.weights@.skip(0) =~= self.weights@);
            assert(inputs@.skip(0) =~= inputs@);
        }
        while i < n
            invariant
                i <= n,
                n == if self.weights@.len() < inputs@.len() {
                    self.weights@.len()
                } else {
                    inputs@.len()
                },
                mac_s(self.weights@.skip(i as int), inputs@.skip(i as int), acc as int) == mac_s(
                    self.weights@,
                    inputs@,
                    self.bias as int,
                ),
            decreases n - i,
        {
            proof {
                assert(self.weights@.skip(i as int)[0] == self.weights@[i as int]);
                assert(inputs@.skip(i as int)[0] == inputs@[i as int]);
                assert(self.weights@.skip(i as int).skip(1) =~= self.weights@.skip(i as int + 1));
                assert(inputs@.skip(i as int).skip(1) =~= inputs@.skip(i as int + 1));
            }
            acc = fx_add(acc, fx_mul(self.weights[i], inputs[i]));
            i = i + 1;
        }
        proof {
            assert(self.weights@.skip(n as int).len() == 0 || inputs@.skip(n as int).len() == 0);
        }
        acc
    }

    pub fn get_bias(&self) -> (r: i64)
        ensures
            r == self.bias,
    {
        self.bias
    }

    /// The neuron's output on the given inputs: activation of the weighted
    /// sum. No side effect.
    pub fn compute(&self, inputs: &Vec<i64>) -> (r: i64)
        ensures
            r == compute_s(*self, inputs@),
    {
        self.activation_function.apply(self.multiply_and_accumulate(inputs))
    }

    /// Compute and cache this neuron's chain-rule error signal from the
    /// downstream errors and the downstream weights addressing this neuron.
    pub fn calculate_error(
        &mut self,
        inputs: &Vec<i64>,
        next_layer_errors_caused: &Vec<i64>,
        next_layer_weights: &Vec<i64>,
    ) -> (r: Result<i64, NetworkError>)
        ensures
            final(self).current_error == calc_error_s(
                *old(self),
                inputs@,
                next_layer_errors_caused@,
                next_layer_weights@,
            ),
            r == Ok::<i64, NetworkError>(final(self).current_error),
            final(self).weights@ == old(self).weights@,
            final(self).bias == old(self).bias,
            final(self).learning_rate == old(self).learning_rate,
            final(self).activation_function == old(self).activation_function,
            final(self).activation_function_prime == old(self).activation_function_prime,
    {
        let temp_factor = self.activation_function_prime.apply(self.multiply_and_accumulate(inputs));
        let weights_times_errors_caused = dot(next_layer_errors_caused, next_layer_weights);
        self.current_error = fx_mul(weights_times_errors_caused, temp_factor);
        Ok(self.current_error)
    }

    /// One gradient step: each weight moves against the cached error scaled
    /// by the input that fed it; the bias moves against the error alone.
    pub fn step_gradient(&mut self, inputs: &Vec<i64>)
        ensures
            neuron_stepped(*old(self), *final(self), inputs@),
    {
        let t = fx_mul(self.learning_rate, self.current_error);
        let n: usize = if self.weights.len() < inputs.len() {
            self.weights.len()
        } else {
            inputs.len()
        };
        let mut new_weights: Vec<i64> = Vec::new();
        let mut k: usize = 0;
        while k < n
            invariant
                k <= n,
                n == if self.weights@.len() < inputs@.len() {
                    self.weights@.len()
                } else {
                    inputs@.len()
                },
                t == fx_mul_s(self.learning_rate as int, self.current_error as int),
                new_weights@.len() == k,
                forall|j: int|
                    0 <= j < k ==> new_weights@[j] == fx_sub_s(
                        self.weights@[j] as int,
                        fx_mul_s(t as int, inputs@[j] as int),
                    ),
            decreases n - k,
        {
            new_weights.push(fx_sub(self.weights[k], fx_mul(t, inputs[k])));
            k = k + 1;
        }
        self.weights = new_weights;
        self.bias = fx_sub(self.bias, t);
    }

    /// Install an externally supplied error signal, used for the output
    /// neuron where the loss derivative arrives from outside.
    pub fn set_error(&mut self, error: i64)
        ensures
            final(self).current_error == error,
            final(self).weights@ == old(self).weights@,
            final(self).bias == old(self).bias,
            final(self).learning_rate == old(self).learning_rate,
            final(self).activation_function == old(self).activation_function,
            final(self).activation_function_prime == old(self).activation_function_prime,
    {
        self.current_error = error
    }
}

/// Left fold of element-wise products starting from zero, walking both
/// vectors in step and stopping at the shorter one.
fn dot(a: &Vec<i64>, b: &Vec<i64>) -> (r: i64)
    ensures
        r == mac_s(a@, b@, 0),
{
    let n: usize = if a.len() < b.len() {
        a.len()
    } else {
        b.len()
    };
    let mut acc: i64 = 0;
    let mut i: usize = 0;
    proof {
        assert(a@.skip(0) =~= a@);
        assert(b@.skip(0) =~= b@);
    }
    while i < n
        invariant
            i <= n,
            n == if a@.len() < b@.len() {
                a@.len()
            } else {
                b@.len()
            },
            mac_s(a@.skip(i as int), b@.skip(i as int), acc as int) == mac_s(a@, b@, 0),
        decreases n - i,
    {
        proof {
            assert(a@.skip(i as int)[0] == a@[i as int]);
            assert(b@.skip(i as int)[0] == b@[i as int]);
            assert(a@.skip(i as int).skip(1) =~= a@.skip(i as int + 1));
            assert(b@.skip(i as int).skip(1) =~= b@.skip(i as int + 1));
        }
        acc = fx_add(acc, fx_mul(a[i], b[i]));
        i = i + 1;
    }
    proof {
        assert(a@.skip(n as int).len() == 0 || b@.skip(n as int).len() == 0);
    }
    acc
}

/// All-zero inputs contribute nothing to the weighted-sum fold: each product
/// is zero and adding zero never saturates.
pub proof fn lemma_mac_zero_inputs(ws: Seq<i64>, xs: Seq<i64>, acc: int)
    requires
        in_i64(acc),
        forall|i: int| 0 <= i < xs.len() ==> xs[i] == 0,
    ensures
        mac_s(ws, xs, acc) == acc,
    decreases ws.len(),
{
    if ws.len() != 0 && xs.len() != 0 {
        assert(fx_mul_s(ws[0] as int, xs[0] as int) == 0);
        assert(fx_add_s(acc, 0) == acc);
        lemma_mac_zero_inputs(ws.skip(1), xs.skip(1), acc);
    }
}

/// Zero-input identity: on an all-zero input of the neuron's own width, the
/// output is exactly the bias, for the identity activation, and for the
/// rectified-linear activation whenever the bias is not negative.
pub proof fn lemma_neuron_zero_input_bias(n: Neuron, xs: Seq<i64>)
    requires
        xs.len() == n.weights@.len(),
        forall|i: int| 0 <= i < xs.len() ==> xs[i] == 0,
        n.activation_function == ActivationFunction::Identity || (n.activation_function
            == ActivationFunction::Relu && n.bias >= 0),
    ensures
        compute_s(n, xs) == n.bias as int,
{
    lemma_mac_zero_inputs(n.weights@, xs, n.bias as int);
}

} // verus!
