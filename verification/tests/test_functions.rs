use rusty_network::activation_functions::{identity, identity_prime, relu, relu_prime};
use rusty_network::error_functions::squared_loss_prime;
use rusty_network::fixed::{fx_add, fx_div_count, fx_mul, fx_sub, SCALE};

#[test]
fn relu_and_its_derivative() {
    assert_eq!(relu(7_000_000), 7_000_000);
    assert_eq!(relu(-5_000_000), 0);
    assert_eq!(relu(0), 0);
    assert_eq!(relu_prime(7_000_000), SCALE);
    assert_eq!(relu_prime(-5_000_000), 0);
    assert_eq!(relu_prime(0), 0);
}

#[test]
fn identity_and_its_derivative() {
    assert_eq!(identity(-3_141_592), -3_141_592);
    assert_eq!(identity_prime(-3_141_592), SCALE);
}

#[test]
fn squared_loss_prime_exact() {
    // -2 * (5.0 - 3.0) = -4.0
    assert_eq!(squared_loss_prime(5_000_000, 3_000_000), -4_000_000);
    // -2 * (3.0 - 5.0) = 4.0
    assert_eq!(squared_loss_prime(3_000_000, 5_000_000), 4_000_000);
    assert_eq!(squared_loss_prime(1_000_000, 1_000_000), 0);
}

#[test]
fn fixed_point_products_round_toward_zero() {
    // 2.5 * 4.0 = 10.0 exactly
    assert_eq!(fx_mul(2_500_000, 4_000_000), 10_000_000);
    // -1.000001 * 0.5 = -0.5000005, truncated toward zero
    assert_eq!(fx_mul(-1_000_001, 500_000), -500_000);
    assert_eq!(fx_mul(1_000_001, 500_000), 500_000);
    assert_eq!(fx_mul(0, i64::MAX), 0);
}

#[test]
fn fixed_point_sums_saturate() {
    assert_eq!(fx_add(i64::MAX, 1), i64::MAX);
    assert_eq!(fx_sub(i64::MIN, 1), i64::MIN);
    assert_eq!(fx_add(1_500_000, -500_000), 1_000_000);
    assert_eq!(fx_mul(i64::MAX, i64::MAX), i64::MAX);
    assert_eq!(fx_mul(i64::MIN, i64::MAX), i64::MIN);
}

#[test]
fn averaging_divides_by_the_count() {
    assert_eq!(fx_div_count(10_000_000, 4), 2_500_000);
    assert_eq!(fx_div_count(-10_000_001, 4), -2_500_000);
    assert_eq!(fx_div_count(3, 4), 0);
}

#[test]
fn add_sums_plain_counters() {
    assert_eq!(rusty_network::add(2, 3), 5);
}
