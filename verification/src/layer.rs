//! A layer: an ordered list of neurons of uniform fan-in. The layer
//! aggregates its neurons' outputs, fans downstream errors back into
//! per-neuron error signals, and exposes its weight matrix, one row per
//! neuron, for the previous layer's error computation.
//!
//! A layer knows nothing of its neighbours: the network hands it the
//! adjacent layer's activations, errors and weights as explicit arguments.

use crate::activation_functions::ActivationFunction;
use crate::fixed::{fx_add, fx_add_s, fx_sub_s, SCALE};
use crate::network_model::NetworkError;
use crate::neuron::{
    calc_error_s, compute_s, neuron_stepped, pre_activation_s, Neuron,
};
use vstd::prelude::*;

verus! {

#[derive(Debug)]
pub struct Layer {
    neuron_list: Vec<Neuron>,
}

impl Layer {
    /// The layer's neurons, in index order.
    pub closed spec fn neurons(self) -> Seq<Neuron> {
        self.neuron_list@
    }
}

/// The vector of every neuron's output, in neuron order.
pub open spec fn layer_out_s(l: Layer, xs: Seq<i64>) -> Seq<i64> {
    Seq::new(l.neurons().len(), |j: int| compute_s(l.neurons()[j], xs) as i64)
}

/// Left fold of the neurons' activated outputs onto `acc`, in neuron order.
pub open spec fn sum_out_s(ns: Seq<Neuron>, xs: Seq<i64>, acc: int) -> int
    decreases ns.len(),
{
    if ns.len() == 0 {
        acc
    } else {
        sum_out_s(ns.skip(1), xs, fx_add_s(acc, compute_s(ns[0], xs)))
    }
}

/// Left fold of the neurons' raw weighted sums onto `acc`, skipping the
/// activation, in neuron order.
pub open spec fn raw_sum_s(ns: Seq<Neuron>, xs: Seq<i64>, acc: int) -> int
    decreases ns.len(),
{
    if ns.len() == 0 {
        acc
    } else {
        raw_sum_s(ns.skip(1), xs, fx_add_s(acc, pre_activation_s(ns[0], xs)))
    }
}

/// Left fold of the neurons' biases onto `acc`, in neuron order.
pub open spec fn bias_sum_s(ns: Seq<Neuron>, acc: int) -> int
    decreases ns.len(),
{
    if ns.len() == 0 {
        acc
    } else {
        bias_sum_s(ns.skip(1), fx_add_s(acc, ns[0].bias as int))
    }
}

/// The layer's weight matrix: one row per neuron, in neuron order.
pub open spec fn wbn_s(l: Layer) -> Seq<Seq<i64>> {
    Seq::new(l.neurons().len(), |j: int| l.neurons()[j].weights@)
}

/// The sequence of views of a vector of scalar vectors.
pub open spec fn mat_s(v: Vec<Vec<i64>>) -> Seq<Seq<i64>> {
    Seq::new(v@.len(), |i: int| v@[i]@)
}

/// Column `j` of the matrix can be read: every row is longer than `j`.
pub open spec fn col_ok_s(m: Seq<Seq<i64>>, j: int) -> bool {
    forall|k: int| 0 <= k < m.len() ==> j < #[trigger] m[k].len()
}

/// Column `j` of the matrix: one weight per downstream neuron, each
/// addressing the neuron at index `j` of the upstream layer.
pub open spec fn col_s(m: Seq<Seq<i64>>, j: int) -> Seq<i64> {
    Seq::new(m.len(), |k: int| m[k][j])
}

/// Every column this layer's neurons need can be read from the matrix.
pub open spec fn layer_cols_ok(l: Layer, m: Seq<Seq<i64>>) -> bool {
    forall|j: int| 0 <= j < l.neurons().len() ==> col_ok_s(m, j)
}

/// The error vector a layer computes: one chain-rule signal per neuron,
/// each using its own column of the downstream weight matrix.
pub open spec fn layer_errs_s(l: Layer, xs: Seq<i64>, es: Seq<i64>, m: Seq<Seq<i64>>) -> Seq<i64> {
    Seq::new(l.neurons().len(), |j: int| calc_error_s(l.neurons()[j], xs, es, col_s(m, j)) as i64)
}

/// `b` is `a` with only its cached error replaced by `e`.
pub open spec fn neuron_with_error(a: Neuron, b: Neuron, e: i64) -> bool {
    &&& b.weights@ == a.weights@
    &&& b.bias == a.bias
    &&& b.current_error == e
    &&& b.learning_rate == a.learning_rate
    &&& b.activation_function == a.activation_function
    &&& b.activation_function_prime == a.activation_function_prime
}

/// `post` is `pre` with every neuron's cached error replaced by the matching
/// entry of `es`.
pub open spec fn layer_with_errors(pre: Layer, post: Layer, es: Seq<i64>) -> bool {
    &&& post.neurons().len() == pre.neurons().len()
    &&& forall|j: int|
        0 <= j < pre.neurons().len() ==> neuron_with_error(
            pre.neurons()[j],
            #[trigger] post.neurons()[j],
            es[j],
        )
}

/// `post` is `pre` after one gradient step fed by `xs` in every neuron.
pub open spec fn layer_stepped(pre: Layer, post: Layer, xs: Seq<i64>) -> bool {
    &&& post.neurons().len() == pre.neurons().len()
    &&& forall|j: int|
        0 <= j < pre.neurons().len() ==> neuron_stepped(
            pre.neurons()[j],
            #[trigger] post.neurons()[j],
            xs,
        )
}

/// `post` and `pre` hold pointwise equal neurons except that cached errors
/// are unconstrained; weights, biases and tags all agree.
pub open spec fn layer_same_but_errors(pre: Layer, post: Layer) -> bool {
    &&& post.neurons().len() == pre.neurons().len()
    &&& forall|j: int|
        0 <= j < pre.neurons().len() ==> neuron_with_error(
            pre.neurons()[j],
            #[trigger] post.neurons()[j],
            post.neurons()[j].current_error,
        )
}

/// A freshly constructed layer: `layer_width` neurons, each with `input_width`
/// random weights in `[0, 1)`, a random bias in `[0, 1)`, a cleared error and
/// the given rate and activation tags.
pub open spec fn layer_fresh(
    l: Layer,
    layer_width: int,
    input_width: int,
    learning_rate: i64,
    af: ActivationFunction,
    afp: ActivationFunction,
) -> bool {
    &&& l.neurons().len() == layer_width
    &&& forall|j: int|
        0 <= j < layer_width ==> {
            let n = #[trigger] l.neurons()[j];
            &&& n.weights@.len() == input_width
            &&& forall|k: int| 0 <= k < input_width ==> 0 <= #[trigger] n.weights@[k] < SCALE
            &&& 0 <= n.bias < SCALE
            &&& n.current_error == 0
            &&& n.learning_rate == learning_rate
            &&& n.activation_function == af
            &&& n.activation_function_prime == afp
        }
}

/// All-zero inputs make every neuron produce exactly its bias, so the two
/// folds walk in step.
proof fn lemma_sum_out_is_bias_sum(ns: Seq<Neuron>, xs: Seq<i64>, acc: int)
    requires
        crate::fixed::in_i64(acc),
        forall|i: int| 0 <= i < xs.len() ==> xs[i] == 0,
        forall|j: int| 0 <= j < ns.len() ==> (#[trigger] ns[j]).weights@.len() == xs.len(),
        forall|j: int|
            0 <= j < ns.len() ==> ((#[trigger] ns[j]).activation_function
                == ActivationFunction::Identity || (ns[j].activation_function
                == ActivationFunction::Relu && ns[j].bias >= 0)),
    ensures
        sum_out_s(ns, xs, acc) == bias_sum_s(ns, acc),
    decreases ns.len(),
{
    if ns.len() != 0 {
        crate::neuron::lemma_neuron_zero_input_bias(ns[0], xs);
        lemma_sum_out_is_bias_sum(ns.skip(1), xs, fx_add_s(acc, ns[0].bias as int));
    }
}

/// Zero-input identity for a layer: on an all-zero input of the layer's own
/// fan-in, the summed output equals the accumulated bias, for the identity
/// activation, and for the rectified-linear activation whenever every bias
/// is not negative.
pub proof fn lemma_layer_zero_input_bias(l: Layer, xs: Seq<i64>)
    requires
        forall|i: int| 0 <= i < xs.len() ==> xs[i] == 0,
        forall|j: int| 0 <= j < l.neurons().len() ==> (#[trigger] l.neurons()[j]).weights@.len()
            == xs.len(),
        forall|j: int|
            0 <= j < l.neurons().len() ==> ((#[trigger] l.neurons()[j]).activation_function
                == ActivationFunction::Identity || (l.neurons()[j].activation_function
                == ActivationFunction::Relu && l.neurons()[j].bias >= 0)),
    ensures
        sum_out_s(l.neurons(), xs, 0) == bias_sum_s(l.neurons(), 0),
{
    lemma_sum_out_is_bias_sum(l.neurons(), xs, 0);
}

/// Weight-matrix addressing: the column extracted for upstream neuron `i`
/// from a downstream layer's weight matrix holds, for every downstream
/// neuron `j`, exactly that neuron's `i`-th weight. `compute_layer_errors`
/// feeds precisely this column into neuron `i`'s chain-rule error.
pub proof fn lemma_weight_matrix_addressing(next: Layer, i: int)
    ensures
        col_s(wbn_s(next), i).len() == next.neurons().len(),
        forall|j: int|
            0 <= j < next.neurons().len() ==> col_s(wbn_s(next), i)[j] == next.neurons()[j].weights@[i],
{
}

/// The raw-sum fold stays in the `i64` range whenever it starts there.
pub proof fn lemma_raw_sum_in_i64(ns: Seq<Neuron>, xs: Seq<i64>, acc: int)
    requires
        crate::fixed::in_i64(acc),
    ensures
        crate::fixed::in_i64(raw_sum_s(ns, xs, acc)),
    decreases ns.len(),
{
    if ns.len() != 0 {
        lemma_raw_sum_in_i64(ns.skip(1), xs, fx_add_s(acc, pre_activation_s(ns[0], xs)));
    }
}

/// Writing cached errors keeps every weight: a layer whose neurons changed
/// only their error fields exposes the same weight matrix.
pub proof fn lemma_wbn_unchanged(a: Layer, b: Layer)
    requires
        layer_same_but_errors(a, b),
    ensures
        wbn_s(b) == wbn_s(a),
{
    assert(wbn_s(b) =~= wbn_s(a));
}

/// A layer that took a full error vector in particular kept its weights.
pub proof fn lemma_with_errors_same(a: Layer, b: Layer, es: Seq<i64>)
    requires
        layer_with_errors(a, b, es),
    ensures
        layer_same_but_errors(a, b),
{
}

/// Copy a vector of scalars.
pub(crate) fn copy_values(v: &Vec<i64>) -> (r: Vec<i64>)
    ensures
        r@ == v@,
{
    let mut r: Vec<i64> = Vec::new();
    let mut i: usize = 0;
    proof {
        assert(r@ =~= v@.take(0));
    }
    while i < v.len()
        invariant
            i <= v@.len(),
            r@ == v@.take(i as int),
        decreases v@.len() - i,
    {
        r.push(v[i]);
        proof {
            assert(r@ =~= v@.take(i as int + 1));
        }
        i = i + 1;
    }
    proof {
        assert(v@.take(v@.len() as int) =~= v@);
    }
    r
}

impl Layer {
    /// A fresh layer of `layer_width` randomly initialised neurons, each of
    /// fan-in `input_width`.
    pub fn new(
        layer_width: usize,
        input_width: usize,
        learning_rate: i64,
        activation_function: ActivationFunction,
        activation_function_prime: ActivationFunction,
    ) -> (r: Layer)
        ensures
            layer_fresh(
                r,
                layer_width as int,
                input_width as int,
                learning_rate,
                activation_function,
                activation_function_prime,
            ),
    {
        let mut neuron_list: Vec<Neuron> = Vec::new();
        let mut i: usize = 0;
        while i < layer_width
            invariant
                i <= layer_width,
                neuron_list@.len() == i,
                forall|j: int|
                    0 <= j < i ==> {
                        let n = #[trigger] neuron_list@[j];
                        &&& n.weights@.len() == input_width
                        &&& forall|k: int|
                            0 <= k < input_width ==> 0 <= #[trigger] n.weights@[k] < SCALE
                        &&& 0 <= n.bias < SCALE
                        &&& n.current_error == 0
                        &&& n.learning_rate == learning_rate
                        &&& n.activation_function == activation_function
                        &&& n.activation_function_prime == activation_function_prime
                    },
            decreases layer_width - i,
        {
            neuron_list.push(
                Neuron::new(
                    input_width,
                    learning_rate,
                    activation_function,
                    activation_function_prime,
                ),
            );
            i = i + 1;
        }

        Layer { neuron_list }
    }

    /// A layer made of the given neurons, for reproducible construction.
    pub fn from_neurons(neuron_list: Vec<Neuron>) -> (r: Layer)
        ensures
            r.neurons() == neuron_list@,
    {
        Layer { neuron_list }
    }

    /// The number of neurons in this layer.
    pub fn width(&self) -> (r: usize)
        ensures
            r == self.neurons().len(),
    {
        self.neuron_list.len()
    }

    /// The vector of every neuron's output on the given inputs, in neuron
    /// order. Pure.
    pub fn compute_m_to_n(&self, inputs: &Vec<i64>) -> (r: Vec<i64>)
        ensures
            r@ == layer_out_s(*self, inputs@),
    {
        let mut result_vec: Vec<i64> = Vec::new();
        let mut i: usize = 0;
        while i < self.neuron_list.len()
            invariant
                i <= self.neuron_list@.len(),
                result_vec@.len() == i,
                forall|j: int|
                    0 <= j < i ==> result_vec@[j] == compute_s(self.neuron_list@[j], inputs@),
            decreases self.neuron_list@.len() - i,
        {
            result_vec.push(self.neuron_list[i].compute(inputs));
            i = i + 1;
        }
        proof {
            assert(result_vec@ =~= layer_out_s(*self, inputs@));
        }
        result_vec
    }

    /// The sum of every neuron's activated output on the given inputs.
    pub fn compute_n_to_1(&self, inputs: &Vec<i64>) -> (r: i64)
        ensures
            r == sum_out_s(self.neurons(), inputs@, 0),
    {
        let mut acc: i64 = 0;
        let mut i: usize = 0;
        proof {
            assert(self.neuron_list@.skip(0) =~= self.neuron_list@);
        }
        while i < self.neuron_list.len()
            invariant
                i <= self.neuron_list@.len(),
                sum_out_s(self.neuron_list@.skip(i as int), inputs@, acc as int) == sum_out_s(
                    self.neuron_list@,
                    inputs@,
                    0,
                ),
            decreases self.neuron_list@.len() - i,
        {
            proof {
                assert(self.neuron_list@.skip(i as int)[0] == self.neuron_list@[i as int]);
                assert(self.neuron_list@.skip(i as int).skip(1) =~= self.neuron_list@.skip(
                    i as int + 1,
                ));
            }
            acc = fx_add(acc, self.neuron_list[i].compute(inputs));
            i = i + 1;
        }
        acc
    }

    /// The sum of every neuron's raw weighted sum on the given inputs, with
    /// no activation applied; used where the output layer hands back a raw
    /// prediction.
    pub fn compute_n_to_1_without_activation_layer(&self, inputs: &Vec<i64>) -> (r: i64)
        ensures
            r == raw_sum_s(self.neurons(), inputs@, 0),
    {
        let mut acc: i64 = 0;
        let mut i: usize = 0;
        proof {
            assert(self.neuron_list@.skip(0) =~= self.neuron_list@);
        }
        while i < self.neuron_list.len()
            invariant
                i <= self.neuron_list@.len(),
                raw_sum_s(self.neuron_list@.skip(i as int), inputs@, acc as int) == raw_sum_s(
                    self.neuron_list@,
                    inputs@,
                    0,
                ),
            decreases self.neuron_list@.len() - i,
        {
            proof {
                assert(self.neuron_list@.skip(i as int)[0] == self.neuron_list@[i as int]);
                assert(self.neuron_list@.skip(i as int).skip(1) =~= self.neuron_list@.skip(
                    i as int + 1,
                ));
            }
            acc = fx_add(acc, self.neuron_list[i].multiply_and_accumulate(inputs));
            i = i + 1;
        }
        acc
    }

    /// The difference between the layer's summed output and a reference
    /// value.
    pub fn compute_absolute_error(&self, input_params: &Vec<i64>, output: i64) -> (r: i64)
        ensures
            r == fx_sub_s(sum_out_s(self.neurons(), input_params@, 0), output as int),
    {
        crate::fixed::fx_sub(self.compute_n_to_1(input_params), output)
    }

    /// The sum of every neuron's bias, in neuron order.
    pub fn accumulate_bias(&self) -> (r: i64)
        ensures
            r == bias_sum_s(self.neurons(), 0),
    {
        let mut acc: i64 = 0;
        let mut i: usize = 0;
        proof {
            assert(self.neuron_list@.skip(0) =~= self.neuron_list@);
        }
        while i < self.neuron_list.len()
            invariant
                i <= self.neuron_list@.len(),
                bias_sum_s(self.neuron_list@.skip(i as int), acc as int) == bias_sum_s(
                    self.neuron_list@,
                    0,
                ),
            decreases self.neuron_list@.len() - i,
        {
            proof {
                assert(self.neuron_list@.skip(i as int)[0] == self.neuron_list@[i as int]);
                assert(self.neuron_list@.skip(i as int).skip(1) =~= self.neuron_list@.skip(
                    i as int + 1,
                ));
            }
            acc = fx_add(acc, self.neuron_list[i].get_bias());
            i = i + 1;
        }
        acc
    }

    fn fetch_next_layer_weights_for_neuron(
        next_layer_weights_by_neuron: &Vec<Vec<i64>>,
        index: usize,
    ) -> (r: Result<Vec<i64>, NetworkError>)
        ensures
            col_ok_s(mat_s(*next_layer_weights_by_neuron), index as int) ==> (r matches Ok(c)
                && c@ == col_s(mat_s(*next_layer_weights_by_neuron), index as int)),
            !col_ok_s(mat_s(*next_layer_weights_by_neuron), index as int) ==> r == Err::<
                Vec<i64>,
                NetworkError,
            >(NetworkError::ErrorsIncomplete),
    {
        let ghost m = mat_s(*next_layer_weights_by_neuron);
        let mut next_layer_weights_for_neuron: Vec<i64> = Vec::new();
        let mut k: usize = 0;
        while k < next_layer_weights_by_neuron.len()
            invariant
                k <= next_layer_weights_by_neuron@.len(),
                m == mat_s(*next_layer_weights_by_neuron),
                next_layer_weights_for_neuron@.len() == k,
                forall|t: int| 0 <= t < k ==> index < #[trigger] m[t].len(),
                forall|t: int|
                    0 <= t < k ==> #[trigger] next_layer_weights_for_neuron@[t] == m[t][index as int],
            decreases next_layer_weights_by_neuron@.len() - k,
        {
            let row = &next_layer_weights_by_neuron[k];
            proof {
                assert(m[k as int] == next_layer_weights_by_neuron@[k as int]@);
            }
            if index >= row.len() {
                proof {
                    assert(!col_ok_s(m, index as int)) by {
                        assert(m[k as int].len() <= index);
                    }
                }
                return Err(NetworkError::ErrorsIncomplete);
            }
            next_layer_weights_for_neuron.push(row[index]);
            proof {
                assert(index < m[k as int].len());
                assert(next_layer_weights_for_neuron@[k as int] == m[k as int][index as int]);
            }
            k = k + 1;
        }
        proof {
            assert(next_layer_weights_for_neuron@ =~= col_s(m, index as int));
        }
        Ok(next_layer_weights_for_neuron)
    }

    /// Compute and cache every neuron's chain-rule error from the downstream
    /// errors and the downstream weight matrix, reading column `j` for the
    /// neuron at index `j`. Fails with `ErrorsIncomplete` when some row of
    /// the matrix is too short for this layer's width.
    pub fn compute_layer_errors(
        &mut self,
        inputs: &Vec<i64>,
        next_layer_errors_caused: &Vec<i64>,
        next_layer_weights_by_neuron: &Vec<Vec<i64>>,
    ) -> (r: Result<Vec<i64>, NetworkError>)
        ensures
            layer_cols_ok(*old(self), mat_s(*next_layer_weights_by_neuron)) ==> (r matches Ok(v)
                && v@ == layer_errs_s(
                *old(self),
                inputs@,
                next_layer_errors_caused@,
                mat_s(*next_layer_weights_by_neuron),
            ) && layer_with_errors(*old(self), *final(self), v@)),
            !layer_cols_ok(*old(self), mat_s(*next_layer_weights_by_neuron)) ==> (r == Err::<
                Vec<i64>,
                NetworkError,
            >(NetworkError::ErrorsIncomplete) && layer_same_but_errors(*old(self), *final(self))),
    {
        let ghost m = mat_s(*next_layer_weights_by_neuron);
        let ghost pre = *self;
        let mut errors: Vec<i64> = Vec::new();
        let mut j: usize = 0;
        while j < self.neuron_list.len()
            invariant
                j <= self.neuron_list@.len(),
                m == mat_s(*next_layer_weights_by_neuron),
                pre == *old(self),
                self.neuron_list@.len() == pre.neurons().len(),
                errors@.len() == j,
                forall|t: int|
                    j <= t < pre.neurons().len() ==> #[trigger] self.neuron_list@[t]
                        == pre.neurons()[t],
                forall|t: int| 0 <= t < j ==> #[trigger] col_ok_s(m, t),
                forall|t: int|
                    0 <= t < j ==> #[trigger] errors@[t] == calc_error_s(
                        pre.neurons()[t],
                        inputs@,
                        next_layer_errors_caused@,
                        col_s(m, t),
                    ),
                forall|t: int|
                    0 <= t < j ==> neuron_with_error(
                        pre.neurons()[t],
                        #[trigger] self.neuron_list@[t],
                        errors@[t],
                    ),
            decreases self.neuron_list@.len() - j,
        {
            let column = match Self::fetch_next_layer_weights_for_neuron(
                next_layer_weights_by_neuron,
                j,
            ) {
                Ok(c) => c,
                Err(e) => {
                    proof {
                        assert(!col_ok_s(m, j as int));
                        assert(!layer_cols_ok(pre, m));
                        assert(layer_same_but_errors(pre, *self));
                    }
                    return Err(e);
                },
            };
            let value = match self.neuron_list[j].calculate_error(
                inputs,
                next_layer_errors_caused,
                &column,
            ) {
                Ok(v) => v,
                Err(e) => {
                    return Err(e);
                },
            };
            errors.push(value);
            j = j + 1;
        }
        proof {
            assert(layer_cols_ok(pre, m));
            assert(errors@ =~= layer_errs_s(pre, inputs@, next_layer_errors_caused@, m));
        }
        Ok(errors)
    }

    /// One gradient step in every neuron, fed by the activations that
    /// entered this layer in the forward pass.
    pub fn step_gradient(&mut self, inputs: &Vec<i64>)
        ensures
            layer_stepped(*old(self), *final(self), inputs@),
    {
        let ghost pre = *self;
        let mut j: usize = 0;
        while j < self.neuron_list.len()
            invariant
                j <= self.neuron_list@.len(),
                pre == *old(self),
                self.neuron_list@.len() == pre.neurons().len(),
                forall|t: int| j <= t < pre.neurons().len() ==> self.neuron_list@[t] == pre.neurons()[t],
                forall|t: int|
                    0 <= t < j ==> neuron_stepped(pre.neurons()[t], #[trigger] self.neuron_list@[t], inputs@),
            decreases self.neuron_list@.len() - j,
        {
            self.neuron_list[j].step_gradient(inputs);
            j = j + 1;
        }
    }

    /// Install the externally supplied loss derivative as the first neuron's
    /// error. Fails with `EmptyNeuronList` when the layer has no neurons.
    pub fn set_final_layer_error(&mut self, error: i64) -> (r: Result<(), NetworkError>)
        ensures
            old(self).neurons().len() == 0 ==> (r == Err::<(), NetworkError>(
                NetworkError::EmptyNeuronList,
            ) && *final(self) == *old(self)),
            old(self).neurons().len() > 0 ==> (r == Ok::<(), NetworkError>(())
                && final(self).neurons().len() == old(self).neurons().len() && neuron_with_error(
                old(self).neurons()[0],
                final(self).neurons()[0],
                error,
            ) && (forall|t: int|
                1 <= t < old(self).neurons().len() ==> final(self).neurons()[t] == old(
                    self,
                ).neurons()[t])),
    {
        if self.neuron_list.len() == 0 {
            return Err(NetworkError::EmptyNeuronList);
        }
        self.neuron_list[0].set_error(error);
        Ok(())
    }

    /// A copy of every neuron's weight vector, one row per neuron; what the
    /// previous layer needs to compute its own errors.
    pub fn get_weights_by_neurons(&self) -> (r: Vec<Vec<i64>>)
        ensures
            mat_s(r) == wbn_s(*self),
    {
        let mut weights_by_neurons: Vec<Vec<i64>> = Vec::new();
        let mut j: usize = 0;
        while j < self.neuron_list.len()
            invariant
                j <= self.neuron_list@.len(),
                weights_by_neurons@.len() == j,
                forall|t: int|
                    0 <= t < j ==> #[trigger] weights_by_neurons@[t]@ == self.neuron_list@[t].weights@,
            decreases self.neuron_list@.len() - j,
        {
            weights_by_neurons.push(copy_values(&self.neuron_list[j].weights));
            j = j + 1;
        }
        proof {
            assert(mat_s(weights_by_neurons) =~= wbn_s(*self));
        }
        weights_by_neurons
    }
}

} // verus!
