use rand::Rng;
use rusty_network::activation_functions::ActivationFunction;
use rusty_network::fixed::SCALE;
use rusty_network::neuron::Neuron;

#[test]
fn test_zero_input_vec() {
    let mut rng = rand::thread_rng();
    let random_integer: usize = rng.gen::<usize>() % 1000_usize;

    let neuron = Neuron::new(
        random_integer,
        10_000,
        ActivationFunction::Relu,
        ActivationFunction::ReluPrime,
    );

    let mut input_vec = Vec::with_capacity(random_integer);
    for _ in 0..random_integer {
        input_vec.push(0)
    }

    assert_eq!(neuron.get_bias(), neuron.compute(&input_vec));
}

#[test]
fn lib_create_neuron() {
    let mut rng = rand::thread_rng();
    let random_integer: usize = rng.gen::<usize>() % 1000_usize;

    println!("Current random integer:{}", random_integer);

    let neuron = Neuron::new(
        random_integer,
        10_000,
        ActivationFunction::Relu,
        ActivationFunction::ReluPrime,
    );

    let mut input_vec = Vec::with_capacity(random_integer);
    for _ in 0..random_integer {
        input_vec.push(0)
    }
    assert_eq!(neuron.get_bias(), neuron.compute(&input_vec));
}

#[test]
fn unit_tests_create_neuron() {
    let mut rng = rand::thread_rng();
    let random_integer: usize = rng.gen::<usize>() % 1000_usize;

    let neuron = Neuron::new(
        random_integer,
        10_000,
        ActivationFunction::Relu,
        ActivationFunction::ReluPrime,
    );

    let mut input_vec = Vec::with_capacity(random_integer);
    for _ in 0..random_integer {
        input_vec.push(0)
    }

    assert_eq!(neuron.get_bias(), neuron.compute(&input_vec));
}

#[test]
fn random_init_stays_in_unit_range() {
    let neuron = Neuron::new(
        16,
        10_000,
        ActivationFunction::Identity,
        ActivationFunction::IdentityPrime,
    );
    assert!(0 <= neuron.get_bias() && neuron.get_bias() < SCALE);
    for w in neuron.weights.iter() {
        assert!(0 <= *w && *w < SCALE);
    }
    assert_eq!(neuron.weights.len(), 16);
}

#[test]
fn neuron_compute_exact_identity() {
    // 2.0 * 3.0 + 0.5 = 6.5
    let neuron = Neuron::with_parameters(
        vec![2_000_000],
        500_000,
        10_000,
        ActivationFunction::Identity,
        ActivationFunction::IdentityPrime,
    );
    assert_eq!(neuron.compute(&vec![3_000_000]), 6_500_000);
}

#[test]
fn neuron_compute_relu_clamps_negative() {
    // 1.0 * 1.0 - 2.0 = -1.0, rectified to 0
    let neuron = Neuron::with_parameters(
        vec![1_000_000],
        -2_000_000,
        10_000,
        ActivationFunction::Relu,
        ActivationFunction::ReluPrime,
    );
    assert_eq!(neuron.compute(&vec![1_000_000]), 0);
}

#[test]
fn neuron_calculate_error_exact() {
    // identity derivative is one, so the error is the downstream dot product:
    // 2.0 * 3.0 = 6.0
    let mut neuron = Neuron::with_parameters(
        vec![1_000_000],
        0,
        10_000,
        ActivationFunction::Identity,
        ActivationFunction::IdentityPrime,
    );
    let result = neuron.calculate_error(&vec![0], &vec![2_000_000], &vec![3_000_000]);
    assert_eq!(result, Ok(6_000_000));
}

#[test]
fn neuron_step_gradient_exact() {
    // rate 0.01, error 5.0: the bias moves by 0.05, the weight by 0.05 * 2.0
    let mut neuron = Neuron::with_parameters(
        vec![2_000_000],
        1_000_000,
        10_000,
        ActivationFunction::Identity,
        ActivationFunction::IdentityPrime,
    );
    neuron.set_error(5_000_000);
    neuron.step_gradient(&vec![2_000_000]);
    assert_eq!(neuron.weights, vec![1_900_000]);
    assert_eq!(neuron.get_bias(), 950_000);
}
