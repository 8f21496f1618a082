//! The network: an input layer, zero or more hidden ("common") layers and a
//! single-neuron output layer, classified into one of three topologies at
//! construction time from the requested depth. The network drives the
//! three-phase training cycle: forward pass, error backpropagation and
//! gradient step, caching one activation vector per layer boundary in
//! between.

use crate::activation_functions::ActivationFunction;
use crate::error_functions::{err_apply_s, ErrorFunction};
use crate::fixed::{fx_add, fx_add_s, fx_div_count_s};
use crate::layer::{
    col_ok_s, copy_values, layer_cols_ok, layer_errs_s, layer_fresh, layer_out_s, layer_same_but_errors,
    layer_stepped, layer_with_errors, lemma_wbn_unchanged, lemma_with_errors_same, mat_s,
    raw_sum_s, wbn_s, Layer,
};
use crate::network_model::{
    generate_layers_for_mlp, generate_layers_for_single_neuron_model,
    generate_layers_for_two_layer_perceptron, NetworkType,
};
use vstd::prelude::*;

verus! {

pub use crate::network_model::NetworkError;

/// The fields are open so that callers can build a network with chosen
/// weights; `Network::new` establishes the structural well-formedness `wf`
/// that every method's contract expects and preserves.
#[derive(Debug)]
pub struct Network {
    pub intermediate_values: Vec<Vec<i64>>,
    pub network_depth: usize,
    pub network_width: Vec<usize>,
    pub input_width: usize,
    pub learning_rate: i64,
    pub network_type: NetworkType,
    pub common_layers: Vec<Layer>,
    pub output_layer: Layer,
    pub input_layer: Layer,
    pub error_function: ErrorFunction,
}

impl Network {
    /// The cached activation vectors of the forward pass in progress:
    /// index 0 is the raw input, the last entry feeds the output layer.
    pub open spec fn cache(self) -> Seq<Seq<i64>> {
        mat_s(self.intermediate_values)
    }

    /// The topology variant chosen at construction.
    pub open spec fn net_type(self) -> NetworkType {
        self.network_type
    }

    /// The hidden layers, in forward order.
    pub open spec fn commons(self) -> Seq<Layer> {
        self.common_layers@
    }

    /// The output layer.
    pub open spec fn out_layer(self) -> Layer {
        self.output_layer
    }

    /// The input layer.
    pub open spec fn in_layer(self) -> Layer {
        self.input_layer
    }

    /// The configured loss-derivative tag.
    pub open spec fn err_fn(self) -> ErrorFunction {
        self.error_function
    }

    /// Structural well-formedness: the depth matches the topology tag, the
    /// output layer has exactly one neuron, and the hidden-layer count is
    /// what the topology demands. Constructors establish this and every
    /// method preserves it.
    pub open spec fn wf(self) -> bool {
        &&& self.network_depth >= 1
        &&& self.out_layer().neurons().len() == 1
        &&& match self.net_type() {
            NetworkType::SingleNeuron => {
                &&& self.network_depth == 1
                &&& self.in_layer().neurons().len() == 0
                &&& self.commons().len() == 0
            },
            NetworkType::TwoLayerPerceptron => {
                &&& self.network_depth == 2
                &&& self.commons().len() == 0
            },
            NetworkType::MultiLayerPerceptron => {
                &&& self.network_depth >= 3
                &&& self.commons().len() == self.network_depth - 2
            },
        }
    }
}

/// The topology tag selected for a requested depth: one layer is a bare
/// neuron, two layers make a perceptron, anything deeper is general.
pub open spec fn type_for_depth(network_depth: int) -> NetworkType {
    if network_depth == 1 {
        NetworkType::SingleNeuron
    } else if network_depth == 2 {
        NetworkType::TwoLayerPerceptron
    } else {
        NetworkType::MultiLayerPerceptron
    }
}

/// Whether construction succeeds: the width list must carry one entry for
/// the input layer and one per hidden layer; the single-neuron topology
/// needs none.
pub open spec fn widths_sufficient(network_depth: int, widths: Seq<usize>) -> bool {
    if network_depth == 1 {
        true
    } else if network_depth == 2 {
        widths.len() >= 1
    } else {
        widths.len() >= network_depth - 1
    }
}

/// Everything `Network::new` promises of a freshly built network, besides
/// the loss tag: the topology of the table, fresh random layers of the
/// listed widths, and an empty cache.
pub open spec fn fresh_network(
    net: Network,
    network_depth: int,
    widths: Seq<usize>,
    input_width: int,
    learning_rate: i64,
    af: ActivationFunction,
    afp: ActivationFunction,
) -> bool {
    &&& net.wf()
    &&& net.network_depth == network_depth
    &&& net.network_width@ == widths
    &&& net.input_width == input_width
    &&& net.learning_rate == learning_rate
    &&& net.net_type() == type_for_depth(network_depth)
    &&& net.cache().len() == 0
    &&& match net.net_type() {
        NetworkType::SingleNeuron => {
            &&& layer_fresh(net.in_layer(), 0, input_width, learning_rate, af, afp)
            &&& layer_fresh(net.out_layer(), 1, input_width, learning_rate, af, afp)
        },
        NetworkType::TwoLayerPerceptron => {
            &&& layer_fresh(net.in_layer(), widths[0] as int, input_width, learning_rate, af, afp)
            &&& layer_fresh(net.out_layer(), 1, widths[0] as int, learning_rate, af, afp)
        },
        NetworkType::MultiLayerPerceptron => {
            &&& layer_fresh(net.in_layer(), widths[0] as int, input_width, learning_rate, af, afp)
            &&& forall|i: int|
                0 <= i < network_depth - 2 ==> layer_fresh(
                    #[trigger] net.commons()[i],
                    widths[i + 1] as int,
                    widths[i] as int,
                    learning_rate,
                    af,
                    afp,
                )
            &&& layer_fresh(
                net.out_layer(),
                1,
                widths[widths.len() - 1] as int,
                learning_rate,
                af,
                afp,
            )
        },
    }
}

/// Configuration fields and tags agree between two network states.
pub open spec fn same_config(pre: Network, post: Network) -> bool {
    &&& post.network_depth == pre.network_depth
    &&& post.network_width@ == pre.network_width@
    &&& post.input_width == pre.input_width
    &&& post.learning_rate == pre.learning_rate
    &&& post.net_type() == pre.net_type()
    &&& post.err_fn() == pre.err_fn()
}

/// Copy a vector of widths.
fn copy_widths(v: &Vec<usize>) -> (r: Vec<usize>)
    ensures
        r@ == v@,
{
    let mut r: Vec<usize> = Vec::new();
    let mut i: usize = 0;
    proof {
        assert(r@ =~= v@.take(0));
    }
    while i < v.len()
        invariant
            i <= v@.len(),
            r@ == v@.take(i as int),
        decreases v@.len() - i,
    {
        r.push(v[i]);
        proof {
            assert(r@ =~= v@.take(i as int + 1));
        }
        i = i + 1;
    }
    proof {
        assert(v@.take(v@.len() as int) =~= v@);
    }
    r
}

impl Network {
    /// Build a network of the requested depth: depth one is a bare output
    /// neuron, depth two an input and an output layer, anything deeper adds
    /// `depth - 2` hidden layers whose widths chain along the width list.
    /// Fails with `IncorrectNetworkWidthList` when the list is too short for
    /// the depth.
    pub fn new(
        network_depth: usize,
        network_width: &Vec<usize>,
        input_width: usize,
        learning_rate: i64,
        activation_function: ActivationFunction,
        activation_function_prime: ActivationFunction,
        error_function: ErrorFunction,
    ) -> (r: Result<Network, NetworkError>)
        requires
            network_depth >= 1,
        ensures
            r is Ok <==> widths_sufficient(network_depth as int, network_width@),
            r is Err ==> r == Err::<Network, NetworkError>(NetworkError::IncorrectNetworkWidthList),
            r matches Ok(net) ==> fresh_network(
                net,
                network_depth as int,
                network_width@,
                input_width as int,
                learning_rate,
                activation_function,
                activation_function_prime,
            ) && net.err_fn() == error_function,
    {
        let network_type = match network_depth {
            i if i == 1 => NetworkType::SingleNeuron,
            i if i == 2 => NetworkType::TwoLayerPerceptron,
            _ => NetworkType::MultiLayerPerceptron,
        };

        let (input_layer, output_layer, common_layers) = match network_type {
            NetworkType::MultiLayerPerceptron => {
                match generate_layers_for_mlp(
                    network_width,
                    input_width,
                    learning_rate,
                    activation_function,
                    activation_function_prime,
                    network_depth,
                ) {
                    Ok(t) => t,
                    Err(e) => {
                        return Err(e);
                    },
                }
            },
            NetworkType::TwoLayerPerceptron => {
                match generate_layers_for_two_layer_perceptron(
                    network_width,
                    input_width,
                    learning_rate,
                    activation_function,
                    activation_function_prime,
                ) {
                    Ok(t) => t,
                    Err(e) => {
                        return Err(e);
                    },
                }
            },
            NetworkType::SingleNeuron => generate_layers_for_single_neuron_model(
                input_width,
                learning_rate,
                activation_function,
                activation_function_prime,
            ),
        };

        let intermidiate_values: Vec<Vec<i64>> = Vec::new();

        let network_width = copy_widths(network_width);

        let network = Network {
            intermediate_values: intermidiate_values,
            network_depth,
            network_width,
            input_width,
            learning_rate,
            network_type,
            common_layers,
            output_layer,
            input_layer,
            error_function,
        };
        Ok(network)
    }

    /// The neuron count of the input layer.
    pub fn input_layer_width(&self) -> (r: usize)
        ensures
            r == self.in_layer().neurons().len(),
    {
        self.input_layer.width()
    }

    /// The number of hidden layers.
    pub fn common_layer_count(&self) -> (r: usize)
        ensures
            r == self.commons().len(),
    {
        self.common_layers.len()
    }

    /// The neuron count of the output layer.
    pub fn output_layer_width(&self) -> (r: usize)
        ensures
            r == self.out_layer().neurons().len(),
    {
        self.output_layer.width()
    }

    /// How many activation vectors the forward cache currently holds.
    pub fn intermediate_value_count(&self) -> (r: usize)
        ensures
            r == self.cache().len(),
    {
        self.intermediate_values.len()
    }

    /// Clear the forward cache, returning the network to its idle state.
    pub fn reset_intermediate_values(&mut self)
        ensures
            final(self).cache().len() == 0,
            same_config(*old(self), *final(self)),
            final(self).in_layer() == old(self).in_layer(),
            final(self).commons() == old(self).commons(),
            final(self).out_layer() == old(self).out_layer(),
    {
        self.intermediate_values = Vec::new();
    }
}

/// The cache after `k` hidden layers have each consumed the last entry and
/// appended their own output.
pub open spec fn mlp_cache_s(commons: Seq<Layer>, k: nat, c: Seq<Seq<i64>>) -> Seq<Seq<i64>>
    decreases k,
{
    if k == 0 {
        c
    } else {
        let prev = mlp_cache_s(commons, (k - 1) as nat, c);
        prev.push(layer_out_s(commons[k - 1 as int], prev.last()))
    }
}

/// Each hidden layer appends one entry to the cache.
pub proof fn lemma_mlp_cache_len(commons: Seq<Layer>, k: nat, c: Seq<Seq<i64>>)
    ensures
        mlp_cache_s(commons, k, c).len() == c.len() + k,
    decreases k,
{
    if k > 0 {
        lemma_mlp_cache_len(commons, (k - 1) as nat, c);
    }
}

/// The hidden layers only append: entries the cache already held stay put.
pub proof fn lemma_mlp_cache_prefix(commons: Seq<Layer>, k: nat, c: Seq<Seq<i64>>, idx: int)
    requires
        0 <= idx < c.len(),
    ensures
        mlp_cache_s(commons, k, c)[idx] == c[idx],
    decreases k,
{
    lemma_mlp_cache_len(commons, k, c);
    if k > 0 {
        lemma_mlp_cache_len(commons, (k - 1) as nat, c);
        lemma_mlp_cache_prefix(commons, (k - 1) as nat, c, idx);
    }
}

impl Network {
    /// The whole cache a forward pass leaves behind, starting from `c0` (the
    /// prior cache with the raw input already appended): every topology but
    /// the bare neuron appends the input layer's output, and the general
    /// topology lets each hidden layer consume the last entry and append its
    /// own.
    pub open spec fn ff_cache_s(self, c0: Seq<Seq<i64>>) -> Seq<Seq<i64>> {
        match self.net_type() {
            NetworkType::SingleNeuron => c0,
            NetworkType::TwoLayerPerceptron => c0.push(layer_out_s(self.in_layer(), c0[0])),
            NetworkType::MultiLayerPerceptron => mlp_cache_s(
                self.commons(),
                (self.network_depth - 2) as nat,
                c0.push(layer_out_s(self.in_layer(), c0[0])),
            ),
        }
    }

    /// The scalar prediction of a forward pass starting from `c0`: the output
    /// layer's raw weighted sum over the last cached activation vector.
    pub open spec fn ff_out_s(self, c0: Seq<Seq<i64>>) -> int {
        raw_sum_s(self.out_layer().neurons(), self.ff_cache_s(c0).last(), 0)
    }

    /// Layers and topology agree between two network states.
    pub open spec fn same_layers(pre: Network, post: Network) -> bool {
        &&& post.in_layer() == pre.in_layer()
        &&& post.commons() == pre.commons()
        &&& post.out_layer() == pre.out_layer()
    }

    /// Run the forward pass, filling the cache: push the raw input, then
    /// each layer's output in order; the output layer is left to the caller.
    /// Fails with `InvalidInputInserted` when the input width disagrees with
    /// the configured one.
    fn base_feedforward_compute(&mut self, inputs: &Vec<i64>) -> (r: Result<(), NetworkError>)
        requires
            old(self).wf(),
        ensures
            inputs@.len() != old(self).input_width ==> (r == Err::<(), NetworkError>(
                NetworkError::InvalidInputInserted,
            ) && *final(self) == *old(self)),
            inputs@.len() == old(self).input_width ==> (r == Ok::<(), NetworkError>(()) && {
                &&& final(self).cache() == old(self).ff_cache_s(old(self).cache().push(inputs@))
                &&& same_config(*old(self), *final(self))
                &&& Network::same_layers(*old(self), *final(self))
                &&& final(self).wf()
            }),
    {
        if inputs.len() != self.input_width {
            return Err(NetworkError::InvalidInputInserted);
        }
        let ghost pre = *self;
        let ghost c0 = pre.cache().push(inputs@);
        self.intermediate_values.push(copy_values(inputs));
        proof {
            assert(self.cache() =~= c0);
        }
        match self.network_type {
            NetworkType::SingleNeuron => (),
            _ => {
                let first_layer_result = self.input_layer.compute_m_to_n(
                    &self.intermediate_values[0],
                );
                proof {
                    assert(c0[0] == self.intermediate_values@[0]@);
                }
                self.intermediate_values.push(first_layer_result);
                proof {
                    assert(self.cache() =~= c0.push(layer_out_s(pre.in_layer(), c0[0])));
                }
            },
        }

        if let NetworkType::MultiLayerPerceptron = self.network_type {
            let ghost c1 = c0.push(layer_out_s(pre.in_layer(), c0[0]));
            let mut i: usize = 0;
            while i < self.network_depth - 2
                invariant
                    pre == *old(self),
                    pre.wf(),
                    i <= pre.network_depth - 2,
                    pre.net_type() == NetworkType::MultiLayerPerceptron,
                    self.network_depth == pre.network_depth,
                    self.network_width@ == pre.network_width@,
                    self.input_width == pre.input_width,
                    self.learning_rate == pre.learning_rate,
                    self.network_type == pre.net_type(),
                    self.common_layers@ == pre.commons(),
                    self.input_layer == pre.in_layer(),
                    self.output_layer == pre.out_layer(),
                    self.error_function == pre.err_fn(),
                    self.intermediate_values@.len() >= 1,
                    self.cache() == mlp_cache_s(pre.commons(), i as nat, c1),
                decreases pre.network_depth - 2 - i,
            {
                let last_idx = self.intermediate_values.len() - 1;
                let value = self.common_layers[i].compute_m_to_n(
                    &self.intermediate_values[last_idx],
                );
                proof {
                    assert(self.cache()[last_idx as int] == self.intermediate_values@[
                        last_idx as int
                    ]@);
                    assert(self.cache().last() == self.cache()[last_idx as int]);
                }
                self.intermediate_values.push(value);
                proof {
                    assert(self.cache() =~= mlp_cache_s(pre.commons(), (i + 1) as nat, c1));
                }
                i = i + 1;
            }
        }

        Ok(())
    }

    /// One forward pass: validate the input width, fill the cache layer by
    /// layer, and return the output layer's raw weighted sum over the last
    /// cached activations.
    pub fn feedforward_compute_iteration(&mut self, inputs: &Vec<i64>) -> (r: Result<
        i64,
        NetworkError,
    >)
        requires
            old(self).wf(),
        ensures
            inputs@.len() != old(self).input_width ==> (r == Err::<i64, NetworkError>(
                NetworkError::InvalidInputInserted,
            ) && *final(self) == *old(self)),
            inputs@.len() == old(self).input_width ==> {
                let c0 = old(self).cache().push(inputs@);
                &&& r == Ok::<i64, NetworkError>(old(self).ff_out_s(c0) as i64)
                &&& final(self).cache() == old(self).ff_cache_s(c0)
                &&& same_config(*old(self), *final(self))
                &&& Network::same_layers(*old(self), *final(self))
                &&& final(self).wf()
            },
    {
        match self.base_feedforward_compute(inputs) {
            Ok(()) => (),
            Err(e) => {
                return Err(e);
            },
        }
        proof {
            lemma_ff_cache_shape_from(*old(self), old(self).cache().push(inputs@));
        }
        let last_idx = self.intermediate_values.len() - 1;
        let output = self.output_layer.compute_n_to_1_without_activation_layer(
            &self.intermediate_values[last_idx],
        );
        proof {
            assert(self.cache()[last_idx as int] == self.intermediate_values@[last_idx as int]@);
        }
        Ok(output)
    }

    /// One forward pass that leaves the network untouched: the cache it
    /// builds is handed back to the caller together with the raw prediction,
    /// for batch training.
    pub fn feedforward_compute_batch(&mut self, inputs: &Vec<i64>) -> (r: Result<
        (Vec<Vec<i64>>, i64),
        NetworkError,
    >)
        requires
            old(self).wf(),
        ensures
            *final(self) == *old(self),
            inputs@.len() != old(self).input_width ==> r == Err::<(Vec<Vec<i64>>, i64), NetworkError>(
                NetworkError::InvalidInputInserted,
            ),
            inputs@.len() == old(self).input_width ==> (r matches Ok(t) && {
                let c0 = seq![inputs@];
                &&& mat_s(t.0) == old(self).ff_cache_s(c0)
                &&& t.1 == old(self).ff_out_s(c0) as i64
            }),
    {
        if inputs.len() != self.input_width {
            return Err(NetworkError::InvalidInputInserted);
        }
        let ghost pre = *self;
        let mut intermediate_values: Vec<Vec<i64>> = Vec::new();
        let ghost c0 = seq![inputs@];
        intermediate_values.push(copy_values(inputs));
        proof {
            assert(mat_s(intermediate_values) =~= c0);
        }
        match self.network_type {
            NetworkType::SingleNeuron => (),
            _ => {
                let first_layer_result = self.input_layer.compute_m_to_n(&intermediate_values[0]);
                proof {
                    assert(c0[0] == intermediate_values@[0]@);
                }
                intermediate_values.push(first_layer_result);
                proof {
                    assert(mat_s(intermediate_values) =~= c0.push(
                        layer_out_s(pre.in_layer(), c0[0]),
                    ));
                }
            },
        }

        if let NetworkType::MultiLayerPerceptron = self.network_type {
            let ghost c1 = c0.push(layer_out_s(pre.in_layer(), c0[0]));
            let mut i: usize = 0;
            while i < self.network_depth - 2
                invariant
                    pre == *old(self),
                    pre.wf(),
                    *self == pre,
                    i <= pre.network_depth - 2,
                    pre.net_type() == NetworkType::MultiLayerPerceptron,
                    intermediate_values@.len() >= 1,
                    mat_s(intermediate_values) == mlp_cache_s(pre.commons(), i as nat, c1),
                decreases pre.network_depth - 2 - i,
            {
                let last_idx = intermediate_values.len() - 1;
                let value = self.common_layers[i].compute_m_to_n(&intermediate_values[last_idx]);
                proof {
                    assert(mat_s(intermediate_values)[last_idx as int] == intermediate_values@[
                        last_idx as int
                    ]@);
                    assert(mat_s(intermediate_values).last() == mat_s(intermediate_values)[
                        last_idx as int
                    ]);
                }
                intermediate_values.push(value);
                proof {
                    assert(mat_s(intermediate_values) =~= mlp_cache_s(
                        pre.commons(),
                        (i + 1) as nat,
                        c1,
                    ));
                }
                i = i + 1;
            }
        }

        proof {
            lemma_ff_cache_shape_from(pre, c0);
        }
        let last_idx = intermediate_values.len() - 1;
        let output = self.output_layer.compute_n_to_1_without_activation_layer(
            &intermediate_values[last_idx],
        );
        proof {
            assert(mat_s(intermediate_values)[last_idx as int] == intermediate_values@[
                last_idx as int
            ]@);
        }
        Ok((intermediate_values, output))
    }
}

/// Copy a vector of activation vectors.
fn copy_mat(v: &Vec<Vec<i64>>) -> (r: Vec<Vec<i64>>)
    ensures
        mat_s(r) == mat_s(*v),
{
    let mut r: Vec<Vec<i64>> = Vec::new();
    let mut i: usize = 0;
    while i < v.len()
        invariant
            i <= v@.len(),
            r@.len() == i,
            forall|t: int| 0 <= t < i ==> #[trigger] r@[t]@ == v@[t]@,
        decreases v@.len() - i,
    {
        r.push(copy_values(&v[i]));
        i = i + 1;
    }
    proof {
        assert(mat_s(r) =~= mat_s(*v));
    }
    r
}

impl Network {
    /// The weight matrix of the layer above hidden layer `i`: the next
    /// hidden layer where there is one, else the output layer. With `i` one
    /// below zero this addresses the layer above the input layer.
    pub open spec fn next_weights_s(self, i: int) -> Seq<Seq<i64>> {
        if i + 1 < self.commons().len() {
            wbn_s(self.commons()[i + 1])
        } else {
            wbn_s(self.out_layer())
        }
    }

    /// The chain-rule error vector of hidden layer `i`, walking down from the
    /// output error `fe`: the layer reads the errors of the layer above it,
    /// the weights with which that layer consumed its output, and the cached
    /// activations that fed it, `cache[i + 1]`.
    pub open spec fn common_errs_s(self, cache: Seq<Seq<i64>>, fe: i64, i: int) -> Seq<i64>
        decreases self.commons().len() - i,
        when 0 <= i < self.commons().len()
    {
        let next_errs = if i >= self.commons().len() - 1 {
            seq![fe]
        } else {
            self.common_errs_s(cache, fe, i + 1)
        };
        layer_errs_s(self.commons()[i], cache[i + 1], next_errs, self.next_weights_s(i))
    }

    /// The input layer's chain-rule error vector: against the first hidden
    /// layer's errors where there is one, else the output error itself, with
    /// the raw inputs `cache[0]`.
    pub open spec fn input_errs_s(self, cache: Seq<Seq<i64>>, fe: i64) -> Seq<i64> {
        let next_errs = if self.commons().len() > 0 {
            self.common_errs_s(cache, fe, 0)
        } else {
            seq![fe]
        };
        layer_errs_s(self.in_layer(), cache[0], next_errs, self.next_weights_s(-1))
    }

    /// How many cached activation vectors the backward pass reads.
    pub open spec fn bp_cache_needed(self) -> int {
        if self.net_type() == NetworkType::MultiLayerPerceptron {
            self.network_depth - 1
        } else {
            1
        }
    }

    /// Every weight column the backward pass reads exists: each layer's
    /// width is covered by the weight rows of the layer above it.
    pub open spec fn bp_cols_ok(self) -> bool {
        &&& forall|i: int|
            0 <= i < self.commons().len() ==> layer_cols_ok(
                #[trigger] self.commons()[i],
                self.next_weights_s(i),
            )
        &&& layer_cols_ok(self.in_layer(), self.next_weights_s(-1))
    }
}

/// A completed backward pass over `cache` with output error `fe`: the output
/// neuron holds `fe`, every hidden layer and the input layer hold their
/// chain-rule error vectors; no weight, bias or cached activation moves.
pub open spec fn backpropagated(pre: Network, post: Network, cache: Seq<Seq<i64>>, fe: i64) -> bool {
    &&& same_config(pre, post)
    &&& post.cache() == pre.cache()
    &&& layer_with_errors(pre.out_layer(), post.out_layer(), seq![fe])
    &&& post.commons().len() == pre.commons().len()
    &&& forall|i: int|
        0 <= i < pre.commons().len() ==> layer_with_errors(
            pre.commons()[i],
            #[trigger] post.commons()[i],
            pre.common_errs_s(cache, fe, i),
        )
    &&& layer_with_errors(pre.in_layer(), post.in_layer(), pre.input_errs_s(cache, fe))
}

/// An abandoned backward pass: the output neuron holds `fe` and every layer
/// keeps its weights and biases; the cached errors of the other layers are
/// left unspecified, and nothing else moves.
pub open spec fn backprop_failed(pre: Network, post: Network, fe: i64) -> bool {
    &&& same_config(pre, post)
    &&& post.cache() == pre.cache()
    &&& layer_with_errors(pre.out_layer(), post.out_layer(), seq![fe])
    &&& post.commons().len() == pre.commons().len()
    &&& forall|i: int|
        0 <= i < pre.commons().len() ==> layer_same_but_errors(
            pre.commons()[i],
            #[trigger] post.commons()[i],
        )
    &&& layer_same_but_errors(pre.in_layer(), post.in_layer())
}

impl Network {
    /// Walk the chain rule backward over the given activation cache: install
    /// `fe` in the output neuron; for the general topology compute each
    /// hidden layer's errors from the layer above it, walking in reverse;
    /// finally compute the input layer's errors. Fails with
    /// `IntermediateValuesIncomplete` when the cache is shorter than the
    /// walk needs, and with `ErrorsIncomplete` when some weight row above a
    /// layer is too short for that layer's width.
    fn base_backpropagate(&mut self, final_error: i64, cached: &Vec<Vec<i64>>) -> (r: Result<
        (),
        NetworkError,
    >)
        requires
            old(self).wf(),
        ensures
            final(self).wf(),
            mat_s(*cached).len() < old(self).bp_cache_needed() ==> (r == Err::<(), NetworkError>(
                NetworkError::IntermediateValuesIncomplete,
            ) && backprop_failed(*old(self), *final(self), final_error)),
            mat_s(*cached).len() >= old(self).bp_cache_needed() && !old(self).bp_cols_ok() ==> (r
                == Err::<(), NetworkError>(NetworkError::ErrorsIncomplete) && backprop_failed(
                *old(self),
                *final(self),
                final_error,
            )),
            mat_s(*cached).len() >= old(self).bp_cache_needed() && old(self).bp_cols_ok() ==> (r
                == Ok::<(), NetworkError>(()) && backpropagated(
                *old(self),
                *final(self),
                mat_s(*cached),
                final_error,
            )),
    {
        let ghost pre = *self;
        let ghost cache = mat_s(*cached);

        match self.output_layer.set_final_layer_error(final_error) {
            Ok(()) => (),
            Err(e) => {
                return Err(e);
            },
        }

        let mut intermediate_errors: Vec<Vec<i64>> = Vec::new();
        let mut first_errs: Vec<i64> = Vec::new();
        first_errs.push(final_error);
        proof {
            assert(first_errs@ =~= seq![final_error]);
        }
        intermediate_errors.push(first_errs);

        if let NetworkType::MultiLayerPerceptron = self.network_type {
            let mut i: usize = self.network_depth - 2;
            while i > 0
                invariant
                    pre == *old(self),
                    pre.wf(),
                    cache == mat_s(*cached),
                    pre.net_type() == NetworkType::MultiLayerPerceptron,
                    i <= pre.network_depth - 2,
                    self.network_depth == pre.network_depth,
                    self.network_width@ == pre.network_width@,
                    self.input_width == pre.input_width,
                    self.learning_rate == pre.learning_rate,
                    self.network_type == pre.net_type(),
                    self.error_function == pre.err_fn(),
                    self.intermediate_values == pre.intermediate_values,
                    self.input_layer == pre.in_layer(),
                    self.common_layers@.len() == pre.commons().len(),
                    layer_with_errors(pre.out_layer(), self.output_layer, seq![final_error]),
                    forall|t: int| 0 <= t < i ==> #[trigger] self.common_layers@[t] == pre.commons()[t],
                    forall|t: int|
                        i <= t < pre.commons().len() ==> layer_with_errors(
                            pre.commons()[t],
                            #[trigger] self.common_layers@[t],
                            pre.common_errs_s(cache, final_error, t),
                        ),
                    forall|t: int|
                        i <= t < pre.commons().len() ==> layer_cols_ok(
                            #[trigger] pre.commons()[t],
                            pre.next_weights_s(t),
                        ),
                    i < pre.network_depth - 2 ==> cache.len() >= pre.network_depth - 1,
                    intermediate_errors@.len() >= 1,
                    i == pre.network_depth - 2 ==> intermediate_errors@[intermediate_errors@.len()
                        - 1]@ == seq![final_error],
                    i < pre.network_depth - 2 ==> intermediate_errors@[intermediate_errors@.len()
                        - 1]@ == pre.common_errs_s(cache, final_error, i as int),
                decreases i,
            {
                let idx = i - 1;
                let next_layer_weights_by_neuron = if idx + 1 < self.common_layers.len() {
                    self.common_layers[idx + 1].get_weights_by_neurons()
                } else {
                    self.output_layer.get_weights_by_neurons()
                };
                proof {
                    if idx + 1 < pre.commons().len() {
                        lemma_with_errors_same(
                            pre.commons()[idx + 1],
                            self.common_layers@[idx + 1],
                            pre.common_errs_s(cache, final_error, idx + 1),
                        );
                        lemma_wbn_unchanged(pre.commons()[idx + 1], self.common_layers@[idx + 1]);
                    } else {
                        lemma_with_errors_same(pre.out_layer(), self.output_layer, seq![final_error]);
                        lemma_wbn_unchanged(pre.out_layer(), self.output_layer);
                    }
                    assert(mat_s(next_layer_weights_by_neuron) == pre.next_weights_s(idx as int));
                }
                if idx + 1 >= cached.len() {
                    return Err(NetworkError::IntermediateValuesIncomplete);
                }
                let layer_inputs = copy_values(&cached[idx + 1]);
                let next_errors = copy_values(&intermediate_errors[intermediate_errors.len() - 1]);
                proof {
                    assert(layer_inputs@ == cache[idx + 1]);
                }
                let value = match self.common_layers[idx].compute_layer_errors(
                    &layer_inputs,
                    &next_errors,
                    &next_layer_weights_by_neuron,
                ) {
                    Ok(v) => v,
                    Err(e) => {
                        proof {
                            assert(!layer_cols_ok(
                                pre.commons()[idx as int],
                                pre.next_weights_s(idx as int),
                            ));
                            assert(!pre.bp_cols_ok());
                        }
                        return Err(e);
                    },
                };
                proof {
                    assert(value@ == pre.common_errs_s(cache, final_error, idx as int));
                }
                intermediate_errors.push(value);
                i = idx;
            }
        }

        let next_layer_weights_by_neuron = if 0 < self.common_layers.len() {
            self.common_layers[0].get_weights_by_neurons()
        } else {
            self.output_layer.get_weights_by_neurons()
        };
        proof {
            if 0 < pre.commons().len() {
                lemma_with_errors_same(
                    pre.commons()[0],
                    self.common_layers@[0],
                    pre.common_errs_s(cache, final_error, 0),
                );
                lemma_wbn_unchanged(pre.commons()[0], self.common_layers@[0]);
            } else {
                lemma_with_errors_same(pre.out_layer(), self.output_layer, seq![final_error]);
                lemma_wbn_unchanged(pre.out_layer(), self.output_layer);
            }
            assert(mat_s(next_layer_weights_by_neuron) == pre.next_weights_s(-1));
        }

        if cached.len() == 0 {
            return Err(NetworkError::IntermediateValuesIncomplete);
        }
        let layer_inputs = copy_values(&cached[0]);
        let next_errors = copy_values(&intermediate_errors[intermediate_errors.len() - 1]);
        proof {
            assert(layer_inputs@ == cache[0]);
        }
        match self.input_layer.compute_layer_errors(
            &layer_inputs,
            &next_errors,
            &next_layer_weights_by_neuron,
        ) {
            Ok(_) => (),
            Err(e) => {
                proof {
                    assert(!layer_cols_ok(pre.in_layer(), pre.next_weights_s(-1)));
                }
                return Err(e);
            },
        }

        Ok(())
    }

    /// Backpropagate the output error through the network using the live
    /// forward cache. The cache itself is left in place.
    pub fn backpropagate_error_iteration(&mut self, final_error: i64) -> (r: Result<
        (),
        NetworkError,
    >)
        requires
            old(self).wf(),
        ensures
            final(self).wf(),
            old(self).cache().len() < old(self).bp_cache_needed() ==> (r == Err::<(), NetworkError>(
                NetworkError::IntermediateValuesIncomplete,
            ) && backprop_failed(*old(self), *final(self), final_error)),
            old(self).cache().len() >= old(self).bp_cache_needed() && !old(self).bp_cols_ok() ==> (r
                == Err::<(), NetworkError>(NetworkError::ErrorsIncomplete) && backprop_failed(
                *old(self),
                *final(self),
                final_error,
            )),
            old(self).cache().len() >= old(self).bp_cache_needed() && old(self).bp_cols_ok() ==> (r
                == Ok::<(), NetworkError>(()) && backpropagated(
                *old(self),
                *final(self),
                old(self).cache(),
                final_error,
            )),
    {
        let cached = copy_mat(&self.intermediate_values);
        self.base_backpropagate(final_error, &cached)
    }

    /// Backpropagate the output error through the network using a caller
    /// supplied activation cache, as batch training does with averaged
    /// activations.
    pub fn backpropagate_error_batch(
        &mut self,
        final_error: i64,
        intermediate_values: &Vec<Vec<i64>>,
    ) -> (r: Result<(), NetworkError>)
        requires
            old(self).wf(),
        ensures
            final(self).wf(),
            mat_s(*intermediate_values).len() < old(self).bp_cache_needed() ==> (r == Err::<
                (),
                NetworkError,
            >(NetworkError::IntermediateValuesIncomplete) && backprop_failed(
                *old(self),
                *final(self),
                final_error,
            )),
            mat_s(*intermediate_values).len() >= old(self).bp_cache_needed() && !old(
                self,
            ).bp_cols_ok() ==> (r == Err::<(), NetworkError>(NetworkError::ErrorsIncomplete)
                && backprop_failed(*old(self), *final(self), final_error)),
            mat_s(*intermediate_values).len() >= old(self).bp_cache_needed() && old(
                self,
            ).bp_cols_ok() ==> (r == Ok::<(), NetworkError>(()) && backpropagated(
                *old(self),
                *final(self),
                mat_s(*intermediate_values),
                final_error,
            )),
    {
        self.base_backpropagate(final_error, intermediate_values)
    }
}

/// A completed gradient step: the input layer moved against the raw inputs,
/// hidden layer `i` against `cache[i + 1]`, the output layer against the last
/// cached vector, and the cache was cleared.
pub open spec fn gradient_stepped(
    pre: Network,
    post: Network,
    inputs: Seq<i64>,
    cache: Seq<Seq<i64>>,
) -> bool {
    &&& same_config(pre, post)
    &&& layer_stepped(pre.in_layer(), post.in_layer(), inputs)
    &&& post.commons().len() == pre.commons().len()
    &&& forall|i: int|
        0 <= i < pre.commons().len() ==> layer_stepped(
            pre.commons()[i],
            #[trigger] post.commons()[i],
            cache[i + 1],
        )
    &&& layer_stepped(pre.out_layer(), post.out_layer(), cache[cache.len() - 1])
    &&& post.cache().len() == 0
}

/// An abandoned gradient step: the input layer moved, each hidden layer
/// moved only where its cached vector existed, the output layer and the
/// cache stayed put.
pub open spec fn gradient_step_failed(
    pre: Network,
    post: Network,
    inputs: Seq<i64>,
    cache: Seq<Seq<i64>>,
) -> bool {
    &&& same_config(pre, post)
    &&& post.cache() == pre.cache()
    &&& layer_stepped(pre.in_layer(), post.in_layer(), inputs)
    &&& post.commons().len() == pre.commons().len()
    &&& forall|i: int|
        0 <= i < pre.commons().len() ==> if i + 1 < cache.len() {
            layer_stepped(pre.commons()[i], #[trigger] post.commons()[i], cache[i + 1])
        } else {
            post.commons()[i] == pre.commons()[i]
        }
    &&& post.out_layer() == pre.out_layer()
}

impl Network {
    /// Apply one gradient step in every layer: the input layer uses the raw
    /// inputs that opened the cycle, hidden layer `i` the cached vector that
    /// fed it, the output layer the last cached vector; then clear the cache.
    /// Fails with `IntermediateValuesIncomplete` when the cache is shorter
    /// than the topology needs.
    pub fn step_gradient_iteration(&mut self, inputs: &Vec<i64>) -> (r: Result<(), NetworkError>)
        requires
            old(self).wf(),
        ensures
            final(self).wf(),
            old(self).cache().len() < old(self).bp_cache_needed() ==> (r == Err::<(), NetworkError>(
                NetworkError::IntermediateValuesIncomplete,
            ) && gradient_step_failed(*old(self), *final(self), inputs@, old(self).cache())),
            old(self).cache().len() >= old(self).bp_cache_needed() ==> (r == Ok::<(), NetworkError>(
                (),
            ) && gradient_stepped(*old(self), *final(self), inputs@, old(self).cache())),
    {
        let ghost pre = *self;
        let ghost cache = pre.cache();
        self.input_layer.step_gradient(inputs);

        if let NetworkType::MultiLayerPerceptron = self.network_type {
            let mut i: usize = 0;
            while i < self.network_depth - 2
                invariant
                    pre == *old(self),
                    pre.wf(),
                    cache == pre.cache(),
                    pre.net_type() == NetworkType::MultiLayerPerceptron,
                    i <= pre.network_depth - 2,
                    self.network_depth == pre.network_depth,
                    self.network_width@ == pre.network_width@,
                    self.input_width == pre.input_width,
                    self.learning_rate == pre.learning_rate,
                    self.network_type == pre.net_type(),
                    self.error_function == pre.err_fn(),
                    self.intermediate_values == pre.intermediate_values,
                    layer_stepped(pre.in_layer(), self.input_layer, inputs@),
                    self.output_layer == pre.out_layer(),
                    self.common_layers@.len() == pre.commons().len(),
                    forall|t: int|
                        0 <= t < i ==> layer_stepped(
                            pre.commons()[t],
                            #[trigger] self.common_layers@[t],
                            cache[t + 1],
                        ),
                    forall|t: int|
                        i <= t < pre.commons().len() ==> #[trigger] self.common_layers@[t]
                            == pre.commons()[t],
                    i > 0 ==> cache.len() >= i + 1,
                decreases pre.network_depth - 2 - i,
            {
                if i + 1 >= self.intermediate_values.len() {
                    return Err(NetworkError::IntermediateValuesIncomplete);
                }
                let layer_inputs = copy_values(&self.intermediate_values[i + 1]);
                proof {
                    assert(layer_inputs@ == cache[i + 1]);
                }
                self.common_layers[i].step_gradient(&layer_inputs);
                i = i + 1;
            }
        }

        if self.intermediate_values.len() == 0 {
            return Err(NetworkError::IntermediateValuesIncomplete);
        }
        let last_idx = self.intermediate_values.len() - 1;
        let last_inputs = copy_values(&self.intermediate_values[last_idx]);
        proof {
            assert(last_inputs@ == cache[cache.len() - 1]);
        }
        self.output_layer.step_gradient(&last_inputs);

        self.reset_intermediate_values();

        Ok(())
    }

    /// Apply one gradient step in every layer using a caller supplied
    /// activation cache, as batch training does with averaged activations:
    /// the input layer uses its first entry, hidden layer `i` entry `i + 1`,
    /// the output layer the last entry; then clear the live cache.
    pub fn step_gradient_batch(&mut self, intermediate_values: &Vec<Vec<i64>>) -> (r: Result<
        (),
        NetworkError,
    >)
        requires
            old(self).wf(),
        ensures
            final(self).wf(),
            mat_s(*intermediate_values).len() == 0 ==> (r == Err::<(), NetworkError>(
                NetworkError::IntermediateValuesIncomplete,
            ) && *final(self) == *old(self)),
            0 < mat_s(*intermediate_values).len() < old(self).bp_cache_needed() ==> (r == Err::<
                (),
                NetworkError,
            >(NetworkError::IntermediateValuesIncomplete) && gradient_step_failed(
                *old(self),
                *final(self),
                mat_s(*intermediate_values)[0],
                mat_s(*intermediate_values),
            )),
            mat_s(*intermediate_values).len() >= old(self).bp_cache_needed() ==> (r == Ok::<
                (),
                NetworkError,
            >(()) && gradient_stepped(
                *old(self),
                *final(self),
                mat_s(*intermediate_values)[0],
                mat_s(*intermediate_values),
            )),
    {
        let ghost pre = *self;
        let ghost cache = mat_s(*intermediate_values);

        if intermediate_values.len() == 0 {
            return Err(NetworkError::IntermediateValuesIncomplete);
        }
        let first_inputs = copy_values(&intermediate_values[0]);
        proof {
            assert(first_inputs@ == cache[0]);
        }
        self.input_layer.step_gradient(&first_inputs);

        if let NetworkType::MultiLayerPerceptron = self.network_type {
            let mut i: usize = 0;
            while i < self.network_depth - 2
                invariant
                    pre == *old(self),
                    pre.wf(),
                    cache == mat_s(*intermediate_values),
                    cache.len() >= 1,
                    pre.net_type() == NetworkType::MultiLayerPerceptron,
                    i <= pre.network_depth - 2,
                    self.network_depth == pre.network_depth,
                    self.network_width@ == pre.network_width@,
                    self.input_width == pre.input_width,
                    self.learning_rate == pre.learning_rate,
                    self.network_type == pre.net_type(),
                    self.error_function == pre.err_fn(),
                    self.intermediate_values == pre.intermediate_values,
                    layer_stepped(pre.in_layer(), self.input_layer, cache[0]),
                    self.output_layer == pre.out_layer(),
                    self.common_layers@.len() == pre.commons().len(),
                    forall|t: int|
                        0 <= t < i ==> layer_stepped(
                            pre.commons()[t],
                            #[trigger] self.common_layers@[t],
                            cache[t + 1],
                        ),
                    forall|t: int|
                        i <= t < pre.commons().len() ==> #[trigger] self.common_layers@[t]
                            == pre.commons()[t],
                    i > 0 ==> cache.len() >= i + 1,
                decreases pre.network_depth - 2 - i,
            {
                if i + 1 >= intermediate_values.len() {
                    return Err(NetworkError::IntermediateValuesIncomplete);
                }
                let layer_inputs = copy_values(&intermediate_values[i + 1]);
                proof {
                    assert(layer_inputs@ == cache[i + 1]);
                }
                self.common_layers[i].step_gradient(&layer_inputs);
                i = i + 1;
            }
        }

        let last_idx = intermediate_values.len() - 1;
        let last_inputs = copy_values(&intermediate_values[last_idx]);
        proof {
            assert(last_inputs@ == cache[cache.len() - 1]);
        }
        self.output_layer.step_gradient(&last_inputs);

        self.reset_intermediate_values();

        Ok(())
    }
}

/// Cache reset: a completed gradient step leaves the intermediate cache
/// empty, and empty is shorter than any backward pass needs, so
/// `backpropagate_error_iteration` run straight afterwards is promised to
/// fail with `IntermediateValuesIncomplete` by its own contract rather than
/// operate on stale data.
pub proof fn lemma_cache_reset_idempotence(
    pre: Network,
    post: Network,
    inputs: Seq<i64>,
    cache: Seq<Seq<i64>>,
)
    requires
        post.wf(),
        gradient_stepped(pre, post, inputs, cache),
    ensures
        post.cache().len() == 0,
        post.cache().len() < post.bp_cache_needed(),
{
}

/// A completed forward pass alone: layers untouched, the cache filled.
pub open spec fn forwarded(pre: Network, post: Network, xs: Seq<i64>) -> bool {
    &&& same_config(pre, post)
    &&& Network::same_layers(pre, post)
    &&& post.cache() == pre.ff_cache_s(pre.cache().push(xs))
}

/// The output error one training cycle installs: the configured loss
/// derivative of the target against the raw prediction.
pub open spec fn cycle_error_s(pre: Network, xs: Seq<i64>, aim: i64) -> i64 {
    err_apply_s(pre.err_fn(), aim as int, pre.ff_out_s(pre.cache().push(xs))) as i64
}

/// One full training cycle on one sample: a forward pass, a backward pass
/// over the cache it filled with the loss derivative of the prediction, and
/// a gradient step fed by the same cache; the two middle states witness the
/// phases.
pub open spec fn train_step_rel(pre: Network, post: Network, xs: Seq<i64>, aim: i64) -> bool {
    exists|m1: Network, m2: Network|
        {
            &&& #[trigger] forwarded(pre, m1, xs)
            &&& #[trigger] backpropagated(m1, m2, m1.cache(), cycle_error_s(pre, xs, aim))
            &&& gradient_stepped(m2, post, xs, m1.cache())
        }
}

/// A sequence of training cycles, one per sample in order, each starting
/// from the state the previous one left.
pub open spec fn train_seq_rel(
    pre: Network,
    post: Network,
    inputs: Seq<Seq<i64>>,
    targets: Seq<i64>,
) -> bool
    decreases inputs.len(),
{
    if inputs.len() == 0 {
        post == pre
    } else {
        exists|mid: Network|
            #[trigger] train_step_rel(pre, mid, inputs[0], targets[0]) && train_seq_rel(
                mid,
                post,
                inputs.skip(1),
                targets.skip(1),
            )
    }
}

impl Network {
    /// One full training cycle on one sample: forward pass, loss derivative,
    /// backward pass, gradient step.
    fn train_iteration(&mut self, inputs: &Vec<i64>, aim: i64) -> (r: Result<(), NetworkError>)
        requires
            old(self).wf(),
        ensures
            final(self).wf(),
            inputs@.len() != old(self).input_width ==> (r == Err::<(), NetworkError>(
                NetworkError::InvalidInputInserted,
            ) && *final(self) == *old(self)),
            inputs@.len() == old(self).input_width && old(self).bp_cols_ok() ==> (r == Ok::<
                (),
                NetworkError,
            >(()) && train_step_rel(*old(self), *final(self), inputs@, aim)),
            inputs@.len() == old(self).input_width && !old(self).bp_cols_ok() ==> (r == Err::<
                (),
                NetworkError,
            >(NetworkError::ErrorsIncomplete) && (exists|m1: Network|
                #[trigger] forwarded(*old(self), m1, inputs@) && backprop_failed(
                    m1,
                    *final(self),
                    cycle_error_s(*old(self), inputs@, aim),
                ))),
    {
        let ghost pre = *self;
        let final_answer = match self.feedforward_compute_iteration(inputs) {
            Ok(v) => v,
            Err(e) => {
                return Err(e);
            },
        };
        let ghost m1 = *self;
        let last_neuron_error = self.error_function.apply(aim, final_answer);
        proof {
            lemma_ff_cache_shape_from(pre, pre.cache().push(inputs@));
            crate::layer::lemma_raw_sum_in_i64(
                pre.out_layer().neurons(),
                pre.ff_cache_s(pre.cache().push(inputs@)).last(),
                0,
            );
            assert(last_neuron_error == cycle_error_s(pre, inputs@, aim));
            assert(m1.bp_cache_needed() == pre.bp_cache_needed());
            assert(m1.bp_cols_ok() == pre.bp_cols_ok()) by {
                assert(m1.commons() == pre.commons());
                assert(forall|i: int|
                    0 <= i < m1.commons().len() ==> m1.next_weights_s(i) == pre.next_weights_s(i));
                assert(m1.next_weights_s(-1) == pre.next_weights_s(-1));
            }
        }
        match self.backpropagate_error_iteration(last_neuron_error) {
            Ok(()) => (),
            Err(e) => {
                proof {
                    assert(forwarded(pre, m1, inputs@));
                    assert(backprop_failed(m1, *self, cycle_error_s(pre, inputs@, aim)));
                }
                return Err(e);
            },
        }
        let ghost m2 = *self;
        match self.step_gradient_iteration(inputs) {
            Ok(()) => (),
            Err(e) => {
                return Err(e);
            },
        }
        proof {
            assert(forwarded(pre, m1, inputs@));
            assert(backpropagated(m1, m2, m1.cache(), cycle_error_s(pre, inputs@, aim)));
            assert(gradient_stepped(m2, *self, inputs@, m1.cache()));
        }
        Ok(())
    }

    /// Train on every sample in order, one full cycle per sample. Stops at
    /// the first failing cycle or missing target.
    pub fn train_by_iterations(&mut self, inputs: &Vec<Vec<i64>>, targets: &Vec<i64>) -> (r: Result<
        (),
        NetworkError,
    >)
        requires
            old(self).wf(),
        ensures
            final(self).wf(),
            r == Ok::<(), NetworkError>(()) ==> targets@.len() >= mat_s(*inputs).len()
                && train_seq_rel(
                *old(self),
                *final(self),
                mat_s(*inputs),
                targets@.take(mat_s(*inputs).len() as int),
            ),
            r matches Err(e) ==> exists|k: int, mid: Network|
                {
                    &&& 0 <= k < mat_s(*inputs).len()
                    &&& #[trigger] train_seq_rel(
                        *old(self),
                        mid,
                        mat_s(*inputs).take(k),
                        targets@.take(k),
                    )
                    &&& mid.wf()
                    &&& if targets@.len() <= k {
                        e == NetworkError::InvalidInputInserted && *final(self) == mid
                    } else if mat_s(*inputs)[k].len() != mid.input_width {
                        e == NetworkError::InvalidInputInserted && *final(self) == mid
                    } else {
                        e == NetworkError::ErrorsIncomplete && !mid.bp_cols_ok()
                    }
                },
            old(self).cache().len() == 0 && old(self).aligned() && old(self).batch_inputs_ok(
                mat_s(*inputs),
                targets@,
            ) ==> r == Ok::<(), NetworkError>(()),
    {
        let ghost pre = *self;
        let mut i: usize = 0;
        proof {
            assert(mat_s(*inputs).take(0) =~= Seq::<Seq<i64>>::empty());
            assert(targets@.take(0) =~= Seq::<i64>::empty());
            assert(train_seq_rel(pre, pre, mat_s(*inputs).take(0), targets@.take(0)));
        }
        while i < inputs.len()
            invariant
                pre == *old(self),
                pre.wf(),
                self.wf(),
                i <= inputs@.len(),
                i <= targets@.len(),
                train_seq_rel(pre, *self, mat_s(*inputs).take(i as int), targets@.take(i as int)),
                (pre.cache().len() == 0 && pre.aligned() && pre.batch_inputs_ok(
                    mat_s(*inputs),
                    targets@,
                )) ==> (self.cache().len() == 0 && self.aligned() && self.input_width
                    == pre.input_width),
            decreases inputs@.len() - i,
        {
            if i >= targets.len() {
                return Err(NetworkError::InvalidInputInserted);
            }
            let ghost mid = *self;
            proof {
                if pre.cache().len() == 0 && pre.aligned() && pre.batch_inputs_ok(
                    mat_s(*inputs),
                    targets@,
                ) {
                    lemma_aligned_bp_cols_ok(*self);
                    assert(mat_s(*inputs)[i as int].len() == self.input_width);
                }
            }
            let aim = targets[i];
            let input = &inputs[i];
            match self.train_iteration(input, aim) {
                Ok(()) => (),
                Err(e) => {
                    return Err(e);
                },
            }
            proof {
                if pre.cache().len() == 0 && pre.aligned() && pre.batch_inputs_ok(
                    mat_s(*inputs),
                    targets@,
                ) {
                    lemma_train_step_preserves(mid, *self, inputs@[i as int]@, aim);
                }
                lemma_train_seq_snoc(
                    pre,
                    mid,
                    *self,
                    mat_s(*inputs).take(i as int),
                    targets@.take(i as int),
                    inputs@[i as int]@,
                    targets@[i as int],
                );
                assert(mat_s(*inputs).take(i as int).push(inputs@[i as int]@) =~= mat_s(
                    *inputs,
                ).take(i as int + 1));
                assert(targets@.take(i as int).push(targets@[i as int]) =~= targets@.take(
                    i as int + 1,
                ));
            }
            i = i + 1;
        }
        proof {
            assert(mat_s(*inputs).take(inputs@.len() as int) =~= mat_s(*inputs));
        }
        Ok(())
    }
}

impl Network {
    /// One training cycle per sample, in order: the sequential training
    /// entry point under its pipeline-flavoured name.
    pub fn iterations_train(&mut self, inputs: &Vec<Vec<i64>>, targets: &Vec<i64>) -> (r: Result<
        (),
        NetworkError,
    >)
        requires
            old(self).wf(),
        ensures
            final(self).wf(),
            r == Ok::<(), NetworkError>(()) ==> targets@.len() >= mat_s(*inputs).len()
                && train_seq_rel(
                *old(self),
                *final(self),
                mat_s(*inputs),
                targets@.take(mat_s(*inputs).len() as int),
            ),
            old(self).cache().len() == 0 && old(self).aligned() && old(self).batch_inputs_ok(
                mat_s(*inputs),
                targets@,
            ) ==> r == Ok::<(), NetworkError>(()),
    {
        self.train_by_iterations(inputs, targets)
    }

    /// Predict on one sample: a forward pass returning the raw, unactivated
    /// output. The pass's activations stay in the cache.
    pub fn predict_iteration_no_activation(&mut self, inputs: &Vec<i64>) -> (r: Result<
        i64,
        NetworkError,
    >)
        requires
            old(self).wf(),
        ensures
            final(self).wf(),
            inputs@.len() != old(self).input_width ==> (r == Err::<i64, NetworkError>(
                NetworkError::InvalidInputInserted,
            ) && *final(self) == *old(self)),
            inputs@.len() == old(self).input_width ==> {
                let c0 = old(self).cache().push(inputs@);
                &&& r == Ok::<i64, NetworkError>(old(self).ff_out_s(c0) as i64)
                &&& final(self).cache() == old(self).ff_cache_s(c0)
                &&& same_config(*old(self), *final(self))
                &&& Network::same_layers(*old(self), *final(self))
            },
    {
        self.feedforward_compute_iteration(inputs)
    }

    /// Predict on one sample without touching the network: a forward pass
    /// over a scratch cache returning the raw, unactivated output.
    pub fn predict_batch_no_activation(&mut self, inputs: &Vec<i64>) -> (r: Result<
        i64,
        NetworkError,
    >)
        requires
            old(self).wf(),
        ensures
            *final(self) == *old(self),
            inputs@.len() != old(self).input_width ==> r == Err::<i64, NetworkError>(
                NetworkError::InvalidInputInserted,
            ),
            inputs@.len() == old(self).input_width ==> r == Ok::<i64, NetworkError>(
                old(self).ff_out_s(seq![inputs@]) as i64,
            ),
    {
        match self.feedforward_compute_batch(inputs) {
            Ok(t) => Ok(t.1),
            Err(e) => Err(e),
        }
    }

    /// One batch-averaged training step over every sample, under its
    /// pipeline-flavoured name.
    pub fn batch_train(&mut self, inputs: &Vec<Vec<i64>>, targets: &Vec<i64>) -> (r: Result<
        (),
        NetworkError,
    >)
        requires
            old(self).wf(),
            mat_s(*inputs).len() <= i64::MAX,
        ensures
            final(self).wf(),
            mat_s(*inputs).len() == 0 ==> (r == Err::<(), NetworkError>(
                NetworkError::IntermediateValuesIncomplete,
            ) && *final(self) == *old(self)),
            mat_s(*inputs).len() > 0 && !old(self).batch_inputs_ok(mat_s(*inputs), targets@) ==> (r
                == Err::<(), NetworkError>(NetworkError::InvalidInputInserted) && *final(self)
                == *old(self)),
            mat_s(*inputs).len() > 0 && old(self).batch_inputs_ok(mat_s(*inputs), targets@) ==> ({
                let ins = mat_s(*inputs);
                let n = ins.len() as int;
                let avg_err = fx_div_count_s(
                    old(self).batch_err_total_s(ins, targets@, n),
                    n,
                ) as i64;
                let avg = avg_cache_s(old(self).batch_cache_total_s(ins, n), n);
                &&& (!old(self).bp_cols_ok() ==> (r == Err::<(), NetworkError>(
                    NetworkError::ErrorsIncomplete,
                ) && backprop_failed(*old(self), *final(self), avg_err)))
                &&& (old(self).bp_cols_ok() ==> (r == Ok::<(), NetworkError>(()) && (exists|
                    mid: Network,
                |
                    #[trigger] backpropagated(*old(self), mid, avg, avg_err) && gradient_stepped(
                        mid,
                        *final(self),
                        avg[0],
                        avg,
                    ))))
            }),
    {
        self.batch_train_all_input(inputs, targets)
    }
}

/// Extending a chain of training cycles by one more cycle at its end.
pub proof fn lemma_train_seq_snoc(
    a: Network,
    b: Network,
    c: Network,
    inputs: Seq<Seq<i64>>,
    targets: Seq<i64>,
    xs: Seq<i64>,
    aim: i64,
)
    requires
        targets.len() == inputs.len(),
        train_seq_rel(a, b, inputs, targets),
        train_step_rel(b, c, xs, aim),
    ensures
        train_seq_rel(a, c, inputs.push(xs), targets.push(aim)),
    decreases inputs.len(),
{
    if inputs.len() == 0 {
        assert(inputs.push(xs).skip(1) =~= Seq::<Seq<i64>>::empty());
        assert(targets.push(aim).skip(1) =~= Seq::<i64>::empty());
        assert(inputs.push(xs)[0] == xs);
        assert(targets.push(aim)[0] == aim);
        assert(train_seq_rel(c, c, inputs.push(xs).skip(1), targets.push(aim).skip(1)));
    } else {
        let mid = choose|mid: Network|
            #[trigger] train_step_rel(a, mid, inputs[0], targets[0]) && train_seq_rel(
                mid,
                b,
                inputs.skip(1),
                targets.skip(1),
            );
        lemma_train_seq_snoc(mid, b, c, inputs.skip(1), targets.skip(1), xs, aim);
        assert(inputs.skip(1).push(xs) =~= inputs.push(xs).skip(1));
        assert(targets.skip(1).push(aim) =~= targets.push(aim).skip(1));
        assert(inputs.push(xs)[0] == inputs[0]);
        assert(targets.push(aim)[0] == targets[0]);
    }
}

/// Element-wise saturating sum of two caches, on the shape of the first.
pub open spec fn add_caches_s(a: Seq<Seq<i64>>, b: Seq<Seq<i64>>) -> Seq<Seq<i64>> {
    Seq::new(
        a.len(),
        |i: int| Seq::new(a[i].len(), |j: int| fx_add_s(a[i][j] as int, b[i][j] as int) as i64),
    )
}

/// Element-wise truncating average of an accumulated cache over `n` samples.
pub open spec fn avg_cache_s(total: Seq<Seq<i64>>, n: int) -> Seq<Seq<i64>> {
    Seq::new(
        total.len(),
        |i: int| Seq::new(total[i].len(), |j: int| fx_div_count_s(total[i][j] as int, n) as i64),
    )
}

impl Network {
    /// The summed loss derivative over the first `k` samples, each predicted
    /// by a forward pass out of an idle cache.
    pub open spec fn batch_err_total_s(self, inputs: Seq<Seq<i64>>, targets: Seq<i64>, k: int) -> int
        decreases k,
    {
        if k <= 0 {
            0
        } else {
            fx_add_s(
                self.batch_err_total_s(inputs, targets, k - 1),
                err_apply_s(self.err_fn(), targets[k - 1] as int, self.ff_out_s(seq![inputs[k - 1]])),
            )
        }
    }

    /// The element-wise sum of the first `k` samples' forward caches.
    pub open spec fn batch_cache_total_s(self, inputs: Seq<Seq<i64>>, k: int) -> Seq<Seq<i64>>
        decreases k,
        when k >= 1
    {
        if k <= 1 {
            self.ff_cache_s(seq![inputs[0]])
        } else {
            add_caches_s(
                self.batch_cache_total_s(inputs, k - 1),
                self.ff_cache_s(seq![inputs[k - 1]]),
            )
        }
    }

    /// Every sample a batch walks is accepted: each input has the configured
    /// width and has a target.
    pub open spec fn batch_inputs_ok(self, inputs: Seq<Seq<i64>>, targets: Seq<i64>) -> bool {
        &&& forall|k: int| 0 <= k < inputs.len() ==> (#[trigger] inputs[k]).len() == self.input_width
        &&& targets.len() >= inputs.len()
    }
}

/// Element-wise saturating sum of two caches whose shapes agree.
fn add_caches(a: &Vec<Vec<i64>>, b: &Vec<Vec<i64>>) -> (r: Vec<Vec<i64>>)
    requires
        mat_s(*b).len() == mat_s(*a).len(),
        forall|i: int| 0 <= i < mat_s(*a).len() ==> #[trigger] mat_s(*b)[i].len() == mat_s(
            *a,
        )[i].len(),
    ensures
        mat_s(r) == add_caches_s(mat_s(*a), mat_s(*b)),
{
    let mut r: Vec<Vec<i64>> = Vec::new();
    let mut i: usize = 0;
    while i < a.len()
        invariant
            i <= a@.len(),
            mat_s(*b).len() == mat_s(*a).len(),
            forall|t: int| 0 <= t < mat_s(*a).len() ==> #[trigger] mat_s(*b)[t].len() == mat_s(
                *a,
            )[t].len(),
            r@.len() == i,
            forall|t: int| 0 <= t < i ==> #[trigger] r@[t]@ == add_caches_s(mat_s(*a), mat_s(*b))[t],
        decreases a@.len() - i,
    {
        let row_a = &a[i];
        let row_b = &b[i];
        proof {
            assert(mat_s(*a)[i as int] == a@[i as int]@);
            assert(mat_s(*b)[i as int] == b@[i as int]@);
        }
        let mut row: Vec<i64> = Vec::new();
        let mut j: usize = 0;
        while j < row_a.len()
            invariant
                j <= row_a@.len(),
                row_b@.len() == row_a@.len(),
                row@.len() == j,
                forall|u: int|
                    0 <= u < j ==> row@[u] == fx_add_s(row_a@[u] as int, row_b@[u] as int),
            decreases row_a@.len() - j,
        {
            row.push(fx_add(row_a[j], row_b[j]));
            j = j + 1;
        }
        proof {
            assert(row@ =~= add_caches_s(mat_s(*a), mat_s(*b))[i as int]);
        }
        r.push(row);
        i = i + 1;
    }
    proof {
        assert(mat_s(r) =~= add_caches_s(mat_s(*a), mat_s(*b)));
    }
    r
}

/// Element-wise truncating average of a cache over `n` samples.
fn avg_caches(total: &Vec<Vec<i64>>, n: usize) -> (r: Vec<Vec<i64>>)
    requires
        1 <= n <= i64::MAX,
    ensures
        mat_s(r) == avg_cache_s(mat_s(*total), n as int),
{
    let mut r: Vec<Vec<i64>> = Vec::new();
    let mut i: usize = 0;
    while i < total.len()
        invariant
            1 <= n <= i64::MAX,
            i <= total@.len(),
            r@.len() == i,
            forall|t: int|
                0 <= t < i ==> #[trigger] r@[t]@ == avg_cache_s(mat_s(*total), n as int)[t],
        decreases total@.len() - i,
    {
        let row_t = &total[i];
        let mut row: Vec<i64> = Vec::new();
        let mut j: usize = 0;
        while j < row_t.len()
            invariant
                1 <= n <= i64::MAX,
                j <= row_t@.len(),
                row@.len() == j,
                forall|u: int| 0 <= u < j ==> row@[u] == fx_div_count_s(row_t@[u] as int, n as int),
            decreases row_t@.len() - j,
        {
            row.push(crate::fixed::fx_div_count(row_t[j], n));
            j = j + 1;
        }
        proof {
            assert(row@ =~= avg_cache_s(mat_s(*total), n as int)[i as int]);
        }
        r.push(row);
        i = i + 1;
    }
    proof {
        assert(mat_s(r) =~= avg_cache_s(mat_s(*total), n as int));
    }
    r
}

/// Hidden layers append entries whose widths depend only on the layers, so
/// two walks from same-shaped caches stay same-shaped.
proof fn lemma_mlp_cache_lens_match(commons: Seq<Layer>, k: nat, c: Seq<Seq<i64>>, d: Seq<Seq<i64>>)
    requires
        c.len() == d.len(),
        c.len() >= 1,
        forall|i: int| 0 <= i < c.len() ==> #[trigger] c[i].len() == d[i].len(),
    ensures
        mlp_cache_s(commons, k, c).len() == mlp_cache_s(commons, k, d).len(),
        forall|i: int|
            0 <= i < mlp_cache_s(commons, k, c).len() ==> #[trigger] mlp_cache_s(
                commons,
                k,
                c,
            )[i].len() == mlp_cache_s(commons, k, d)[i].len(),
    decreases k,
{
    lemma_mlp_cache_len(commons, k, c);
    lemma_mlp_cache_len(commons, k, d);
    if k > 0 {
        lemma_mlp_cache_lens_match(commons, (k - 1) as nat, c, d);
        lemma_mlp_cache_len(commons, (k - 1) as nat, c);
        lemma_mlp_cache_len(commons, (k - 1) as nat, d);
    }
}

/// Two forward passes over inputs of equal width build caches of identical
/// shape: the entry widths depend only on the network.
pub proof fn lemma_ff_cache_lens_match(net: Network, a: Seq<i64>, b: Seq<i64>)
    requires
        net.wf(),
        a.len() == b.len(),
    ensures
        net.ff_cache_s(seq![a]).len() == net.ff_cache_s(seq![b]).len(),
        forall|i: int|
            0 <= i < net.ff_cache_s(seq![a]).len() ==> #[trigger] net.ff_cache_s(
                seq![a],
            )[i].len() == net.ff_cache_s(seq![b])[i].len(),
{
    if net.net_type() == NetworkType::MultiLayerPerceptron {
        let ca = seq![a].push(layer_out_s(net.in_layer(), a));
        let cb = seq![b].push(layer_out_s(net.in_layer(), b));
        assert(seq![a][0] == a);
        assert(seq![b][0] == b);
        lemma_mlp_cache_lens_match(net.commons(), (net.network_depth - 2) as nat, ca, cb);
    }
}

/// The accumulated batch cache keeps the shape of the first sample's cache.
proof fn lemma_batch_total_shape(net: Network, inputs: Seq<Seq<i64>>, k: int)
    requires
        net.wf(),
        1 <= k <= inputs.len(),
        forall|t: int| 0 <= t < k ==> (#[trigger] inputs[t]).len() == net.input_width,
    ensures
        net.batch_cache_total_s(inputs, k).len() == net.ff_cache_s(seq![inputs[0]]).len(),
        forall|i: int|
            0 <= i < net.batch_cache_total_s(inputs, k).len() ==> #[trigger] net.batch_cache_total_s(
                inputs,
                k,
            )[i].len() == net.ff_cache_s(seq![inputs[0]])[i].len(),
    decreases k,
{
    if k <= 1 {
    } else {
        lemma_batch_total_shape(net, inputs, k - 1);
        lemma_ff_cache_lens_match(net, inputs[0], inputs[k - 1]);
    }
}

impl Network {
    /// One batch-averaged training step over every sample: run a forward
    /// pass per sample, accumulate the loss derivatives and the caches
    /// element-wise, average both over the sample count, then run a single
    /// backward pass and gradient step on the averages. An empty batch is
    /// rejected with `IntermediateValuesIncomplete`; a sample of the wrong
    /// width or without a target with `InvalidInputInserted`.
    pub fn batch_train_all_input(&mut self, inputs: &Vec<Vec<i64>>, targets: &Vec<i64>) -> (r:
        Result<(), NetworkError>)
        requires
            old(self).wf(),
            mat_s(*inputs).len() <= i64::MAX,
        ensures
            final(self).wf(),
            mat_s(*inputs).len() == 0 ==> (r == Err::<(), NetworkError>(
                NetworkError::IntermediateValuesIncomplete,
            ) && *final(self) == *old(self)),
            mat_s(*inputs).len() > 0 && !old(self).batch_inputs_ok(mat_s(*inputs), targets@) ==> (r
                == Err::<(), NetworkError>(NetworkError::InvalidInputInserted) && *final(self)
                == *old(self)),
            mat_s(*inputs).len() > 0 && old(self).batch_inputs_ok(mat_s(*inputs), targets@) ==> ({
                let ins = mat_s(*inputs);
                let n = ins.len() as int;
                let avg_err = fx_div_count_s(
                    old(self).batch_err_total_s(ins, targets@, n),
                    n,
                ) as i64;
                let avg = avg_cache_s(old(self).batch_cache_total_s(ins, n), n);
                &&& (!old(self).bp_cols_ok() ==> (r == Err::<(), NetworkError>(
                    NetworkError::ErrorsIncomplete,
                ) && backprop_failed(*old(self), *final(self), avg_err)))
                &&& (old(self).bp_cols_ok() ==> (r == Ok::<(), NetworkError>(()) && (exists|
                    mid: Network,
                |
                    #[trigger] backpropagated(*old(self), mid, avg, avg_err) && gradient_stepped(
                        mid,
                        *final(self),
                        avg[0],
                        avg,
                    ))))
            }),
    {
        let ghost pre = *self;
        let ghost ins = mat_s(*inputs);
        let mut total_error: i64 = 0;
        let mut total_intermediate_values: Vec<Vec<i64>> = Vec::new();
        let mut k: usize = 0;
        while k < inputs.len()
            invariant
                pre == *old(self),
                pre.wf(),
                *self == pre,
                ins == mat_s(*inputs),
                k <= inputs@.len(),
                k <= targets@.len(),
                forall|t: int| 0 <= t < k ==> (#[trigger] ins[t]).len() == pre.input_width,
                total_error == pre.batch_err_total_s(ins, targets@, k as int),
                k == 0 ==> total_intermediate_values@.len() == 0,
                k >= 1 ==> mat_s(total_intermediate_values) == pre.batch_cache_total_s(
                    ins,
                    k as int,
                ),
                k >= 1 ==> mat_s(total_intermediate_values).len() >= 1,
            decreases inputs@.len() - k,
        {
            let input = &inputs[k];
            let (current_intermediate_values, final_answer) = match self.feedforward_compute_batch(
                input,
            ) {
                Ok(t) => t,
                Err(e) => {
                    proof {
                        assert(ins[k as int] == inputs@[k as int]@);
                        assert(!pre.batch_inputs_ok(ins, targets@));
                    }
                    return Err(e);
                },
            };
            if k >= targets.len() {
                proof {
                    assert(!pre.batch_inputs_ok(ins, targets@));
                }
                return Err(NetworkError::InvalidInputInserted);
            }
            let last_neuron_error = self.error_function.apply(targets[k], final_answer);
            proof {
                crate::layer::lemma_raw_sum_in_i64(
                    pre.out_layer().neurons(),
                    pre.ff_cache_s(seq![ins[k as int]]).last(),
                    0,
                );
                assert(last_neuron_error as int == err_apply_s(
                    pre.err_fn(),
                    targets@[k as int] as int,
                    pre.ff_out_s(seq![ins[k as int]]),
                ));
            }
            total_error = fx_add(total_error, last_neuron_error);
            if total_intermediate_values.len() == 0 {
                proof {
                    lemma_ff_cache_shape_from(pre, seq![ins[k as int]]);
                }
                total_intermediate_values = current_intermediate_values;
            } else {
                proof {
                    lemma_batch_total_shape(pre, ins, k as int);
                    lemma_ff_cache_lens_match(pre, ins[0], ins[k as int]);
                }
                total_intermediate_values = add_caches(
                    &total_intermediate_values,
                    &current_intermediate_values,
                );
            }
            k = k + 1;
        }

        let n = inputs.len();
        if n == 0 {
            return Err(NetworkError::IntermediateValuesIncomplete);
        }
        proof {
            lemma_batch_total_shape(pre, ins, n as int);
            lemma_ff_cache_shape_from(pre, seq![ins[0]]);
        }
        let average_intermediate_values = avg_caches(&total_intermediate_values, n);
        let average_error = crate::fixed::fx_div_count(total_error, n);
        match self.backpropagate_error_batch(average_error, &average_intermediate_values) {
            Ok(()) => (),
            Err(e) => {
                return Err(e);
            },
        }
        let ghost mid = *self;
        match self.step_gradient_batch(&average_intermediate_values) {
            Ok(()) => (),
            Err(e) => {
                return Err(e);
            },
        }
        proof {
            let avg = avg_cache_s(pre.batch_cache_total_s(ins, n as int), n as int);
            let avg_err = fx_div_count_s(
                pre.batch_err_total_s(ins, targets@, n as int),
                n as int,
            ) as i64;
            assert(backpropagated(pre, mid, avg, avg_err));
            assert(gradient_stepped(mid, *self, avg[0], avg));
        }
        Ok(())
    }
}

/// Every neuron of `l` has fan-in `w`.
pub open spec fn layer_fan_in(l: Layer, w: int) -> bool {
    forall|j: int| 0 <= j < l.neurons().len() ==> (#[trigger] l.neurons()[j]).weights@.len() == w
}

impl Network {
    /// The widths chain: each layer's fan-in equals the width of what feeds
    /// it — the raw input for the input layer, the previous layer for every
    /// other. On such a network the backward pass and the gradient step
    /// always find what they read.
    pub open spec fn aligned(self) -> bool {
        match self.net_type() {
            NetworkType::SingleNeuron => layer_fan_in(self.out_layer(), self.input_width as int),
            NetworkType::TwoLayerPerceptron => {
                &&& layer_fan_in(self.in_layer(), self.input_width as int)
                &&& layer_fan_in(self.out_layer(), self.in_layer().neurons().len() as int)
            },
            NetworkType::MultiLayerPerceptron => {
                &&& layer_fan_in(self.in_layer(), self.input_width as int)
                &&& (self.commons().len() > 0 ==> layer_fan_in(
                    self.commons()[0],
                    self.in_layer().neurons().len() as int,
                ))
                &&& forall|i: int|
                    1 <= i < self.commons().len() ==> layer_fan_in(
                        #[trigger] self.commons()[i],
                        self.commons()[i - 1].neurons().len() as int,
                    )
                &&& layer_fan_in(
                    self.out_layer(),
                    if self.commons().len() > 0 {
                        self.commons()[self.commons().len() - 1].neurons().len() as int
                    } else {
                        self.in_layer().neurons().len() as int
                    },
                )
            },
        }
    }
}

/// On an aligned network every weight column the backward pass reads exists:
/// the rows above a layer are exactly as long as the layer is wide.
pub proof fn lemma_aligned_bp_cols_ok(net: Network)
    requires
        net.wf(),
        net.aligned(),
    ensures
        net.bp_cols_ok(),
{
    assert forall|i: int| 0 <= i < net.commons().len() implies layer_cols_ok(
        #[trigger] net.commons()[i],
        net.next_weights_s(i),
    ) by {
        let l = net.commons()[i];
        let m = net.next_weights_s(i);
        assert forall|j: int| 0 <= j < l.neurons().len() implies col_ok_s(m, j) by {
            assert forall|t: int| 0 <= t < m.len() implies j < #[trigger] m[t].len() by {
                if i + 1 < net.commons().len() {
                    assert(m[t] == net.commons()[i + 1].neurons()[t].weights@);
                } else {
                    assert(m[t] == net.out_layer().neurons()[t].weights@);
                }
            }
        }
    }
    let l = net.in_layer();
    let m = net.next_weights_s(-1);
    assert forall|j: int| 0 <= j < l.neurons().len() implies col_ok_s(m, j) by {
        assert forall|t: int| 0 <= t < m.len() implies j < #[trigger] m[t].len() by {
            if 0 < net.commons().len() {
                assert(m[t] == net.commons()[0].neurons()[t].weights@);
            } else {
                assert(m[t] == net.out_layer().neurons()[t].weights@);
            }
        }
    }
}

/// The widths of the entries the hidden layers append: entry `t` past the
/// base cache is hidden layer `t`'s output, one value per neuron.
proof fn lemma_mlp_entry_widths(commons: Seq<Layer>, k: nat, c: Seq<Seq<i64>>)
    requires
        c.len() >= 1,
    ensures
        forall|t: int|
            0 <= t < k ==> #[trigger] mlp_cache_s(commons, k, c)[c.len() + t].len()
                == commons[t].neurons().len(),
    decreases k,
{
    lemma_mlp_cache_len(commons, k, c);
    if k > 0 {
        lemma_mlp_entry_widths(commons, (k - 1) as nat, c);
        lemma_mlp_cache_len(commons, (k - 1) as nat, c);
    }
}

/// A network built by the constructor is aligned whenever its width list is
/// consistent: anything shallow, or a deep network whose last listed width
/// (the output fan-in) equals the width of the top hidden layer.
pub proof fn lemma_fresh_aligned(
    net: Network,
    network_depth: int,
    widths: Seq<usize>,
    input_width: int,
    learning_rate: i64,
    af: ActivationFunction,
    afp: ActivationFunction,
)
    requires
        fresh_network(net, network_depth, widths, input_width, learning_rate, af, afp),
        network_depth >= 3 ==> widths[widths.len() - 1] == widths[network_depth - 2],
    ensures
        net.aligned(),
{
    if net.net_type() == NetworkType::MultiLayerPerceptron {
        assert(layer_fresh(net.commons()[0], widths[1] as int, widths[0] as int, learning_rate, af, afp));
        assert(layer_fresh(
            net.commons()[net.commons().len() - 1],
            widths[network_depth - 2] as int,
            widths[network_depth - 3] as int,
            learning_rate,
            af,
            afp,
        ));
    }
}

/// One training cycle on an aligned, idle network with a sample of the
/// configured width keeps it aligned and idle: every gradient step feeds
/// each layer a vector exactly as long as its fan-in, so no weight vector
/// changes length.
pub proof fn lemma_train_step_preserves(pre: Network, post: Network, xs: Seq<i64>, aim: i64)
    requires
        pre.wf(),
        pre.aligned(),
        pre.cache().len() == 0,
        xs.len() == pre.input_width,
        train_step_rel(pre, post, xs, aim),
    ensures
        post.wf(),
        post.aligned(),
        post.cache().len() == 0,
        post.input_width == pre.input_width,
{
    let (m1, m2) = choose|m1: Network, m2: Network|
        {
            &&& #[trigger] forwarded(pre, m1, xs)
            &&& #[trigger] backpropagated(m1, m2, m1.cache(), cycle_error_s(pre, xs, aim))
            &&& gradient_stepped(m2, post, xs, m1.cache())
        };
    let c0 = pre.cache().push(xs);
    assert(c0 =~= seq![xs]);
    let cache = pre.ff_cache_s(c0);
    assert(m1.cache() == cache);

    // entry widths of the forward cache
    assert(cache[0] == c0[0]) by {
        if pre.net_type() == NetworkType::MultiLayerPerceptron {
            lemma_mlp_cache_prefix(
                pre.commons(),
                (pre.network_depth - 2) as nat,
                c0.push(layer_out_s(pre.in_layer(), c0[0])),
                0,
            );
        }
    }
    if pre.net_type() == NetworkType::MultiLayerPerceptron {
        let c1 = c0.push(layer_out_s(pre.in_layer(), c0[0]));
        let k = (pre.network_depth - 2) as nat;
        lemma_mlp_cache_len(pre.commons(), k, c1);
        lemma_mlp_cache_prefix(pre.commons(), k, c1, 1);
        lemma_mlp_entry_widths(pre.commons(), k, c1);
        assert(cache[1].len() == pre.in_layer().neurons().len());
        assert(forall|t: int|
            0 <= t < k ==> #[trigger] cache[2 + t].len() == pre.commons()[t].neurons().len());
    }

    // each layer of m2 matches pre's layer in widths and fan-ins
    assert(m2.in_layer().neurons().len() == pre.in_layer().neurons().len());
    assert(m2.out_layer().neurons().len() == pre.out_layer().neurons().len());

    // the gradient step feeds each layer exactly its fan-in
    assert forall|j: int| 0 <= j < post.in_layer().neurons().len() implies (
    #[trigger] post.in_layer().neurons()[j]).weights@.len() == pre.input_width by {
        assert(m2.in_layer().neurons()[j].weights@.len() == xs.len());
    }
    assert forall|i: int, j: int|
        0 <= i < post.commons().len() && 0 <= j < post.commons()[i].neurons().len() implies (
    #[trigger] post.commons()[i].neurons()[j]).weights@.len() == pre.commons()[i].neurons()[
        j
    ].weights@.len() by {
        assert(m2.commons()[i].neurons()[j].weights@.len() == pre.commons()[i].neurons()[
            j
        ].weights@.len());
        if pre.net_type() == NetworkType::MultiLayerPerceptron {
            if i == 0 {
                assert(cache[1].len() == pre.in_layer().neurons().len());
            } else {
                assert(cache[2 + (i - 1)].len() == pre.commons()[i - 1].neurons().len());
                assert(cache[i + 1].len() == pre.commons()[i - 1].neurons().len());
            }
        }
    }
    assert forall|j: int| 0 <= j < post.out_layer().neurons().len() implies (
    #[trigger] post.out_layer().neurons()[j]).weights@.len() == pre.out_layer().neurons()[
        j
    ].weights@.len() by {
        assert(m2.out_layer().neurons()[j].weights@.len() == pre.out_layer().neurons()[
            j
        ].weights@.len());
        lemma_ff_cache_shape_from(pre, c0);
        if pre.net_type() == NetworkType::MultiLayerPerceptron {
            let k = (pre.network_depth - 2) as nat;
            assert(cache.len() - 1 == 2 + (k - 1));
            assert(cache[cache.len() - 1].len() == pre.commons()[k - 1].neurons().len());
        } else if pre.net_type() == NetworkType::TwoLayerPerceptron {
            assert(cache[cache.len() - 1] == layer_out_s(pre.in_layer(), c0[0]));
        } else {
            assert(cache[cache.len() - 1] == xs);
        }
    }
}

/// The cache a forward pass builds from `c0` has one entry per traversed
/// layer beyond what `c0` held: none extra for the bare neuron, one for the
/// input layer, and one per hidden layer.
pub proof fn lemma_ff_cache_shape_from(net: Network, c0: Seq<Seq<i64>>)
    requires
        net.wf(),
    ensures
        net.net_type() == NetworkType::SingleNeuron ==> net.ff_cache_s(c0).len() == c0.len(),
        net.net_type() == NetworkType::TwoLayerPerceptron ==> net.ff_cache_s(c0).len() == c0.len()
            + 1,
        net.net_type() == NetworkType::MultiLayerPerceptron ==> net.ff_cache_s(c0).len() == c0.len()
            + net.network_depth - 1,
{
    if net.net_type() == NetworkType::MultiLayerPerceptron {
        lemma_mlp_cache_len(
            net.commons(),
            (net.network_depth - 2) as nat,
            c0.push(layer_out_s(net.in_layer(), c0[0])),
        );
    }
}

/// Forward-pass shape invariant: a completed forward pass from an idle
/// cache leaves exactly `network_depth` cached vectors — the raw input, the
/// input layer's output (absent in the single-neuron topology) and one per
/// hidden layer; the output layer's scalar gets no slot of its own.
pub proof fn lemma_forward_cache_shape(net: Network, inputs: Seq<i64>)
    requires
        net.wf(),
    ensures
        net.ff_cache_s(seq![inputs]).len() == net.network_depth,
{
    lemma_ff_cache_shape_from(net, seq![inputs]);
}

/// Topology dispatch: depth one yields an empty input layer and a lone
/// output neuron as the only trainable layer; depth two yields no hidden
/// layers; depth three or more yields exactly `depth - 2` hidden layers.
pub proof fn lemma_topology_dispatch(
    net: Network,
    network_depth: int,
    widths: Seq<usize>,
    input_width: int,
    learning_rate: i64,
    af: ActivationFunction,
    afp: ActivationFunction,
)
    requires
        fresh_network(net, network_depth, widths, input_width, learning_rate, af, afp),
    ensures
        network_depth == 1 ==> net.in_layer().neurons().len() == 0 && net.commons().len() == 0
            && net.out_layer().neurons().len() == 1,
        network_depth == 2 ==> net.commons().len() == 0,
        network_depth >= 3 ==> net.commons().len() == network_depth - 2,
        net.out_layer().neurons().len() == 1,
{
}

} // verus!
