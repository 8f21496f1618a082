//! The error taxonomy and the topology tags of the network, together with
//! the generators that build each topology's layers.

use crate::activation_functions::ActivationFunction;
use crate::layer::{layer_fresh, Layer};
use vstd::prelude::*;

verus! {

/// Everything that can go wrong inside the engine. Every fallible operation
/// reports one of these; nothing is swallowed internally.
#[derive(Debug, Clone, Copy, PartialEq, Eq, Structural)]
pub enum NetworkError {
    /// An input vector's width disagrees with a configured width.
    InputIncompatibleWidth(usize, usize),
    /// A backward or gradient phase ran without a matching forward cache.
    IntermediateValuesIncomplete,
    /// A hidden-layer index is out of range for the requested depth.
    InvalidCommonLayers,
    /// A downstream weight list is too short for this layer's width.
    ErrorsIncomplete,
    /// A final-layer error was set on a layer with no neurons.
    EmptyNeuronList,
    /// The width list is shorter than the requested depth needs.
    IncorrectNetworkWidthList,
    /// An input vector's length disagrees with the network's input width.
    InvalidInputInserted,
}

/// The topology variant, fixed at construction from the requested depth.
#[derive(Debug, Clone, Copy, PartialEq, Eq, Structural)]
pub enum NetworkType {
    MultiLayerPerceptron,
    TwoLayerPerceptron,
    SingleNeuron,
}

/// Layers for the degenerate single-neuron topology: an empty placeholder
/// input layer, one output neuron of fan-in `input_width`, and no hidden
/// layers.
pub fn generate_layers_for_single_neuron_model(
    input_width: usize,
    learning_rate: i64,
    activation_function: ActivationFunction,
    activation_function_prime: ActivationFunction,
) -> (r: (Layer, Layer, Vec<Layer>))
    ensures
        layer_fresh(
            r.0,
            0,
            input_width as int,
            learning_rate,
            activation_function,
            activation_function_prime,
        ),
        layer_fresh(
            r.1,
            1,
            input_width as int,
            learning_rate,
            activation_function,
            activation_function_prime,
        ),
        r.2@.len() == 0,
{
    let output_layer = Layer::new(
        1,
        input_width,
        learning_rate,
        activation_function,
        activation_function_prime,
    );

    let empty_layer = Layer::new(
        0,
        input_width,
        learning_rate,
        activation_function,
        activation_function_prime,
    );

    (empty_layer, output_layer, Vec::new())
}

/// Layers for the two-layer topology: an input layer as wide as the first
/// entry of the width list, one output neuron fanning in from it, and no
/// hidden layers. Fails when the width list is empty.
pub fn generate_layers_for_two_layer_perceptron(
    network_width: &Vec<usize>,
    input_width: usize,
    learning_rate: i64,
    activation_function: ActivationFunction,
    activation_function_prime: ActivationFunction,
) -> (r: Result<(Layer, Layer, Vec<Layer>), NetworkError>)
    ensures
        network_width@.len() == 0 ==> r == Err::<(Layer, Layer, Vec<Layer>), NetworkError>(
            NetworkError::IncorrectNetworkWidthList,
        ),
        network_width@.len() > 0 ==> (r matches Ok(t) && {
            &&& layer_fresh(
                t.0,
                network_width@[0] as int,
                input_width as int,
                learning_rate,
                activation_function,
                activation_function_prime,
            )
            &&& layer_fresh(
                t.1,
                1,
                network_width@[0] as int,
                learning_rate,
                activation_function,
                activation_function_prime,
            )
            &&& t.2@.len() == 0
        }),
{
    if network_width.len() == 0 {
        return Err(NetworkError::IncorrectNetworkWidthList);
    }
    let first_width = network_width[0];

    let input_layer = Layer::new(
        first_width,
        input_width,
        learning_rate,
        activation_function,
        activation_function_prime,
    );

    let output_layer = Layer::new(
        1,
        first_width,
        learning_rate,
        activation_function,
        activation_function_prime,
    );

    Ok((input_layer, output_layer, Vec::new()))
}

/// Layers for the general topology: an input layer as wide as the first
/// width, `network_depth - 2` hidden layers whose widths chain along the
/// width list, and one output neuron fanning in from the last entry of the
/// list. Fails when the width list is shorter than the depth needs.
pub fn generate_layers_for_mlp(
    network_width: &Vec<usize>,
    input_width: usize,
    learning_rate: i64,
    activation_function: ActivationFunction,
    activation_function_prime: ActivationFunction,
    network_depth: usize,
) -> (r: Result<(Layer, Layer, Vec<Layer>), NetworkError>)
    requires
        network_depth >= 2,
    ensures
        network_width@.len() < network_depth - 1 ==> r == Err::<
            (Layer, Layer, Vec<Layer>),
            NetworkError,
        >(NetworkError::IncorrectNetworkWidthList),
        network_width@.len() >= network_depth - 1 ==> (r matches Ok(t) && {
            &&& layer_fresh(
                t.0,
                network_width@[0] as int,
                input_width as int,
                learning_rate,
                activation_function,
                activation_function_prime,
            )
            &&& t.2@.len() == network_depth - 2
            &&& forall|i: int|
                0 <= i < network_depth - 2 ==> layer_fresh(
                    #[trigger] t.2@[i],
                    network_width@[i + 1] as int,
                    network_width@[i] as int,
                    learning_rate,
                    activation_function,
                    activation_function_prime,
                )
            &&& layer_fresh(
                t.1,
                1,
                network_width@[network_width@.len() - 1] as int,
                learning_rate,
                activation_function,
                activation_function_prime,
            )
        }),
{
    if network_width.len() == 0 {
        return Err(NetworkError::IncorrectNetworkWidthList);
    }
    let mut common_layers: Vec<Layer> = Vec::new();
    let input_layer = Layer::new(
        network_width[0],
        input_width,
        learning_rate,
        activation_function,
        activation_function_prime,
    );

    let mut index: usize = 0;
    while index < network_depth - 2
        invariant
            network_depth >= 2,
            index <= network_depth - 2,
            1 <= network_width@.len(),
            common_layers@.len() == index,
            network_width@.len() >= network_depth - 1 ==> index + 1 < network_width@.len()
                || index == network_depth - 2,
            index > 0 ==> index < network_width@.len(),
            forall|i: int|
                0 <= i < index ==> layer_fresh(
                    #[trigger] common_layers@[i],
                    network_width@[i + 1] as int,
                    network_width@[i] as int,
                    learning_rate,
                    activation_function,
                    activation_function_prime,
                ),
        decreases network_depth - 2 - index,
    {
        if index + 1 >= network_width.len() {
            return Err(NetworkError::IncorrectNetworkWidthList);
        }
        common_layers.push(
            Layer::new(
                network_width[index + 1],
                network_width[index],
                learning_rate,
                activation_function,
                activation_function_prime,
            ),
        );
        index = index + 1;
    }

    let output_layer = Layer::new(
        1,
        network_width[network_width.len() - 1],
        learning_rate,
        activation_function,
        activation_function_prime,
    );

    Ok((input_layer, output_layer, common_layers))
}

} // verus!
