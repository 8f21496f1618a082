use rand::Rng;
use rusty_network::activation_functions::ActivationFunction;
use rusty_network::layer::Layer;
use rusty_network::network_model::NetworkError;
use rusty_network::neuron::Neuron;

#[test]
fn test_layer_test_zero_input_vec() {
    let mut rng = rand::thread_rng();
    let random_integer: usize = rng.gen::<usize>() % 1000_usize;

    let layer = Layer::new(
        random_integer,
        random_integer,
        10_000,
        ActivationFunction::Relu,
        ActivationFunction::ReluPrime,
    );

    let mut input_vec = Vec::with_capacity(random_integer);
    for _ in 0..random_integer {
        input_vec.push(0)
    }

    assert_eq!(layer.accumulate_bias(), layer.compute_n_to_1(&input_vec));
}

#[test]
fn create_layer() {
    let mut rng = rand::thread_rng();
    let random_integer: usize = rng.gen::<usize>() % 1000_usize;

    let layer = Layer::new(
        random_integer,
        random_integer,
        10_000,
        ActivationFunction::Relu,
        ActivationFunction::ReluPrime,
    );

    let mut input_vec = Vec::with_capacity(random_integer);
    for _ in 0..random_integer {
        input_vec.push(0)
    }

    assert_eq!(layer.accumulate_bias(), layer.compute_n_to_1(&input_vec));
}

fn identity_neuron(weights: Vec<i64>, bias: i64) -> Neuron {
    Neuron::with_parameters(
        weights,
        bias,
        10_000,
        ActivationFunction::Identity,
        ActivationFunction::IdentityPrime,
    )
}

#[test]
fn layer_compute_m_to_n_exact() {
    let layer = Layer::from_neurons(vec![
        identity_neuron(vec![1_000_000, 0], 500_000),
        identity_neuron(vec![0, 2_000_000], 0),
    ]);
    let outputs = layer.compute_m_to_n(&vec![3_000_000, 4_000_000]);
    assert_eq!(outputs, vec![3_500_000, 8_000_000]);
}

#[test]
fn layer_raw_sum_skips_activation() {
    // a rectifier would clamp the negative weighted sum; the raw variant must not
    let layer = Layer::from_neurons(vec![Neuron::with_parameters(
        vec![1_000_000],
        -5_000_000,
        10_000,
        ActivationFunction::Relu,
        ActivationFunction::ReluPrime,
    )]);
    assert_eq!(
        layer.compute_n_to_1_without_activation_layer(&vec![1_000_000]),
        -4_000_000
    );
    assert_eq!(layer.compute_n_to_1(&vec![1_000_000]), 0);
}

#[test]
fn layer_compute_absolute_error_exact() {
    let layer = Layer::from_neurons(vec![identity_neuron(vec![2_000_000], 0)]);
    // 2.0 * 3.0 - 5.0 = 1.0
    assert_eq!(
        layer.compute_absolute_error(&vec![3_000_000], 5_000_000),
        1_000_000
    );
}

#[test]
fn weight_matrix_addressing_columns() {
    // downstream layer: two neurons with rows [1.0, 2.0] and [3.0, 4.0]
    let downstream = Layer::from_neurons(vec![
        identity_neuron(vec![1_000_000, 2_000_000], 0),
        identity_neuron(vec![3_000_000, 4_000_000], 0),
    ]);
    let matrix = downstream.get_weights_by_neurons();
    // column i holds the i-th weight of every downstream neuron
    assert_eq!(matrix[0][0], 1_000_000);
    assert_eq!(matrix[1][0], 3_000_000);
    assert_eq!(matrix[0][1], 2_000_000);
    assert_eq!(matrix[1][1], 4_000_000);

    // with downstream errors of one and an identity derivative, each hidden
    // neuron's error is exactly the sum of its own column
    let mut hidden = Layer::from_neurons(vec![
        identity_neuron(vec![1_000_000], 0),
        identity_neuron(vec![1_000_000], 0),
    ]);
    let errors = hidden
        .compute_layer_errors(&vec![0], &vec![1_000_000, 1_000_000], &matrix)
        .unwrap();
    assert_eq!(errors, vec![4_000_000, 6_000_000]);
}

#[test]
fn layer_errors_fail_on_short_weight_rows() {
    let mut hidden = Layer::from_neurons(vec![
        identity_neuron(vec![1_000_000], 0),
        identity_neuron(vec![1_000_000], 0),
    ]);
    // one weight per downstream neuron is not enough for two hidden neurons
    let short_matrix = vec![vec![1_000_000], vec![2_000_000]];
    let result = hidden.compute_layer_errors(&vec![0], &vec![1_000_000, 1_000_000], &short_matrix);
    assert_eq!(result, Err(NetworkError::ErrorsIncomplete));
}

#[test]
fn set_final_layer_error_needs_a_neuron() {
    let mut empty = Layer::from_neurons(Vec::new());
    assert_eq!(
        empty.set_final_layer_error(1_000_000),
        Err(NetworkError::EmptyNeuronList)
    );

    let mut single = Layer::from_neurons(vec![identity_neuron(vec![1_000_000], 0)]);
    assert_eq!(single.set_final_layer_error(7_000_000), Ok(()));
}

#[test]
fn layer_step_gradient_steps_every_neuron() {
    let mut layer = Layer::from_neurons(vec![
        identity_neuron(vec![1_000_000], 1_000_000),
        identity_neuron(vec![2_000_000], 2_000_000),
    ]);
    let _ = layer.set_final_layer_error(0);
    // both errors are zero, so a step must change nothing
    layer.step_gradient(&vec![1_000_000]);
    let matrix = layer.get_weights_by_neurons();
    assert_eq!(matrix[0], vec![1_000_000]);
    assert_eq!(matrix[1], vec![2_000_000]);
    assert_eq!(layer.accumulate_bias(), 3_000_000);
}
