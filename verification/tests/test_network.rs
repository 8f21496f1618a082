use rand::Rng;
use rusty_network::activation_functions::ActivationFunction;
use rusty_network::error_functions::ErrorFunction;
use rusty_network::layer::Layer;
use rusty_network::network::{Network, NetworkError};
use rusty_network::network_model::{
    generate_layers_for_mlp, generate_layers_for_single_neuron_model,
    generate_layers_for_two_layer_perceptron, NetworkType,
};
use rusty_network::neuron::Neuron;

#[test]
fn test_zero_input_network() {
    let mut rng = rand::thread_rng();

    let first_random_integer: usize = rng.gen::<usize>() % 10_usize + 1_usize;
    let second_random_integer: usize = rng.gen::<usize>() % 10_usize + 1_usize;

    let mut network_width_vec = vec![];

    for _ in 0..first_random_integer {
        let current_random_integer = rng.gen::<usize>() % 10_usize + 1_usize;
        network_width_vec.push(current_random_integer);
    }

    println!("Profundidade da rede: {}", first_random_integer);
    println!("Largura da rede: {:?}", network_width_vec);

    let mut new_network = match Network::new(
        first_random_integer,
        &network_width_vec,
        second_random_integer,
        10_000,
        ActivationFunction::Relu,
        ActivationFunction::ReluPrime,
        ErrorFunction::SquaredLoss,
    ) {
        Ok(item) => item,
        Err(error) => panic!("{:#?}", error),
    };

    let mut input_vec = Vec::with_capacity(second_random_integer);
    for _ in 0..second_random_integer {
        input_vec.push(0)
    }

    let optional_value = new_network.feedforward_compute_iteration(&input_vec);
    assert!(optional_value.is_ok())
}

#[test]
fn create_network() {
    let mut rng = rand::thread_rng();

    let first_random_integer: usize = rng.gen::<usize>() % 10_usize + 1_usize;
    let second_random_integer: usize = rng.gen::<usize>() % 10_usize + 1_usize;

    println!("Profundidade da rede: {}", first_random_integer);
    println!("Largura da rede: {}", second_random_integer);

    let network_width_vec = vec![second_random_integer; first_random_integer];

    let mut new_network = Network::new(
        first_random_integer,
        &network_width_vec,
        second_random_integer,
        10_000,
        ActivationFunction::Relu,
        ActivationFunction::ReluPrime,
        ErrorFunction::SquaredLoss,
    )
    .unwrap();

    let mut input_vec = Vec::with_capacity(second_random_integer);
    for _ in 0..second_random_integer {
        input_vec.push(0)
    }

    let optional_value = new_network.feedforward_compute_iteration(&input_vec);

    assert!(optional_value.is_ok())
}

fn small_network(depth: usize, widths: Vec<usize>, input_width: usize) -> Network {
    Network::new(
        depth,
        &widths,
        input_width,
        10_000,
        ActivationFunction::Identity,
        ActivationFunction::IdentityPrime,
        ErrorFunction::SquaredLoss,
    )
    .unwrap()
}

#[test]
fn topology_dispatch_by_depth() {
    let single = small_network(1, vec![], 3);
    assert_eq!(single.input_layer_width(), 0);
    assert_eq!(single.common_layer_count(), 0);
    assert_eq!(single.output_layer_width(), 1);

    let two_layer = small_network(2, vec![4], 3);
    assert_eq!(two_layer.input_layer_width(), 4);
    assert_eq!(two_layer.common_layer_count(), 0);
    assert_eq!(two_layer.output_layer_width(), 1);

    let deep = small_network(5, vec![2, 2, 2, 2], 3);
    assert_eq!(deep.input_layer_width(), 2);
    assert_eq!(deep.common_layer_count(), 3);
    assert_eq!(deep.output_layer_width(), 1);
}

#[test]
fn network_width_list_too_short() {
    let result = Network::new(
        3,
        &vec![2],
        2,
        10_000,
        ActivationFunction::Identity,
        ActivationFunction::IdentityPrime,
        ErrorFunction::SquaredLoss,
    );
    assert!(matches!(result, Err(NetworkError::IncorrectNetworkWidthList)));
}

#[test]
fn forward_cache_one_entry_per_layer() {
    // depth four: the raw input, the input layer's output and two hidden
    // outputs are cached; the output scalar gets no slot
    let mut network = small_network(4, vec![3, 2, 2], 2);
    assert_eq!(network.intermediate_value_count(), 0);
    let result = network.feedforward_compute_iteration(&vec![1_000_000, 2_000_000]);
    assert!(result.is_ok());
    assert_eq!(network.intermediate_value_count(), 4);
}

#[test]
fn feedforward_rejects_wrong_width() {
    let mut network = small_network(1, vec![], 2);
    let result = network.feedforward_compute_iteration(&vec![1_000_000]);
    assert_eq!(result, Err(NetworkError::InvalidInputInserted));
    assert_eq!(network.intermediate_value_count(), 0);
}

#[test]
fn cache_reset_idempotence() {
    let mut network = small_network(1, vec![], 1);
    let prediction = network.feedforward_compute_iteration(&vec![1_000_000]);
    assert!(prediction.is_ok());
    assert_eq!(network.intermediate_value_count(), 1);
    assert!(network.backpropagate_error_iteration(2_000_000).is_ok());
    assert!(network.step_gradient_iteration(&vec![1_000_000]).is_ok());
    // the gradient step emptied the cache
    assert_eq!(network.intermediate_value_count(), 0);
    // a second backward pass has no forward pass to read
    assert_eq!(
        network.backpropagate_error_iteration(2_000_000),
        Err(NetworkError::IntermediateValuesIncomplete)
    );
}

#[test]
fn step_gradient_without_forward_fails() {
    let mut network = small_network(1, vec![], 1);
    assert_eq!(
        network.step_gradient_iteration(&vec![1_000_000]),
        Err(NetworkError::IntermediateValuesIncomplete)
    );
}

#[test]
fn train_converges_on_scale_five() {
    // y = 5 * x, in millionth units, one weight and one bias
    let mut network = small_network(1, vec![1], 1);
    let inputs = vec![
        vec![1_000_000],
        vec![2_000_000],
        vec![3_000_000],
        vec![4_000_000],
    ];
    let targets = vec![5_000_000, 10_000_000, 15_000_000, 20_000_000];
    for _ in 0..100 {
        let training_result = network.train_by_iterations(&inputs, &targets);
        match training_result {
            Ok(_) => (),
            Err(error) => panic!("{:?}", error),
        }
    }
    let prediction = network.predict_batch_no_activation(&vec![5_000_000]).unwrap();
    assert!(prediction > 24_000_000 && prediction < 26_000_000);
}

#[test]
fn batch_training_moves_prediction_toward_target() {
    let mut network = small_network(1, vec![1], 1);
    let inputs = vec![
        vec![1_000_000],
        vec![2_000_000],
        vec![3_000_000],
        vec![4_000_000],
    ];
    let targets = vec![5_000_000, 10_000_000, 15_000_000, 20_000_000];
    let before = network.predict_batch_no_activation(&vec![5_000_000]).unwrap();
    for _ in 0..100 {
        network.batch_train(&inputs, &targets).unwrap();
    }
    let after = network.predict_batch_no_activation(&vec![5_000_000]).unwrap();
    assert!((25_000_000 - after).abs() < (25_000_000 - before).abs());
    assert!(after > 20_000_000 && after < 26_000_000);
}

#[test]
fn batch_train_rejects_empty_batch() {
    let mut network = small_network(1, vec![], 1);
    let result = network.batch_train_all_input(&Vec::new(), &Vec::new());
    assert_eq!(result, Err(NetworkError::IntermediateValuesIncomplete));
}

#[test]
fn train_rejects_missing_target() {
    let mut network = small_network(1, vec![], 1);
    let inputs = vec![vec![1_000_000], vec![2_000_000]];
    let targets = vec![5_000_000];
    assert_eq!(
        network.train_by_iterations(&inputs, &targets),
        Err(NetworkError::InvalidInputInserted)
    );
}

fn identity_neuron(weights: Vec<i64>, bias: i64) -> Neuron {
    Neuron::with_parameters(
        weights,
        bias,
        10_000,
        ActivationFunction::Identity,
        ActivationFunction::IdentityPrime,
    )
}

#[test]
fn deterministic_two_layer_forward() {
    // the input layer forwards each coordinate, the output neuron sums them
    let mut network = Network {
        intermediate_values: Vec::new(),
        network_depth: 2,
        network_width: vec![2],
        input_width: 2,
        learning_rate: 10_000,
        network_type: NetworkType::TwoLayerPerceptron,
        common_layers: Vec::new(),
        output_layer: Layer::from_neurons(vec![identity_neuron(vec![1_000_000, 1_000_000], 0)]),
        input_layer: Layer::from_neurons(vec![
            identity_neuron(vec![1_000_000, 0], 0),
            identity_neuron(vec![0, 1_000_000], 0),
        ]),
        error_function: ErrorFunction::SquaredLoss,
    };
    let prediction = network
        .predict_batch_no_activation(&vec![2_000_000, 3_000_000])
        .unwrap();
    assert_eq!(prediction, 5_000_000);
}

#[test]
fn deterministic_two_layer_training_cycle_exact() {
    // same wiring as the forward test; one full cycle with output error 1.0
    let mut network = Network {
        intermediate_values: Vec::new(),
        network_depth: 2,
        network_width: vec![2],
        input_width: 2,
        learning_rate: 10_000,
        network_type: NetworkType::TwoLayerPerceptron,
        common_layers: Vec::new(),
        output_layer: Layer::from_neurons(vec![identity_neuron(vec![1_000_000, 1_000_000], 0)]),
        input_layer: Layer::from_neurons(vec![
            identity_neuron(vec![1_000_000, 0], 0),
            identity_neuron(vec![0, 1_000_000], 0),
        ]),
        error_function: ErrorFunction::SquaredLoss,
    };
    let inputs = vec![2_000_000, 3_000_000];
    assert_eq!(network.feedforward_compute_iteration(&inputs), Ok(5_000_000));
    assert!(network.backpropagate_error_iteration(1_000_000).is_ok());
    assert!(network.step_gradient_iteration(&inputs).is_ok());

    // every neuron saw an error of one; rate 0.01 moves each weight by
    // 0.01 times the activation that fed it, and each bias by 0.01
    let input_rows = network.input_layer.get_weights_by_neurons();
    assert_eq!(input_rows[0], vec![980_000, -30_000]);
    assert_eq!(input_rows[1], vec![-20_000, 970_000]);
    assert_eq!(network.input_layer.accumulate_bias(), -20_000);
    let output_rows = network.output_layer.get_weights_by_neurons();
    assert_eq!(output_rows[0], vec![980_000, 970_000]);
    assert_eq!(network.output_layer.accumulate_bias(), -10_000);
}

#[test]
fn iterations_train_matches_sequential_training() {
    let mut by_alias = small_network(1, vec![1], 1);
    let inputs = vec![vec![1_000_000]];
    let targets = vec![5_000_000];
    assert!(by_alias.iterations_train(&inputs, &targets).is_ok());
    assert!(by_alias.predict_iteration_no_activation(&vec![1_000_000]).is_ok());
}

#[test]
fn layer_generators_check_the_width_list() {
    let (empty_input, output, commons) = generate_layers_for_single_neuron_model(
        3,
        10_000,
        ActivationFunction::Identity,
        ActivationFunction::IdentityPrime,
    );
    assert_eq!(empty_input.width(), 0);
    assert_eq!(output.width(), 1);
    assert!(commons.is_empty());

    let too_short = generate_layers_for_two_layer_perceptron(
        &Vec::new(),
        3,
        10_000,
        ActivationFunction::Identity,
        ActivationFunction::IdentityPrime,
    );
    assert!(matches!(too_short, Err(NetworkError::IncorrectNetworkWidthList)));

    let deep = generate_layers_for_mlp(
        &vec![2, 3, 4],
        5,
        10_000,
        ActivationFunction::Identity,
        ActivationFunction::IdentityPrime,
        4,
    )
    .unwrap();
    assert_eq!(deep.0.width(), 2);
    assert_eq!(deep.2.len(), 2);
    assert_eq!(deep.2[0].width(), 3);
    assert_eq!(deep.2[1].width(), 4);
    assert_eq!(deep.1.width(), 1);
}
