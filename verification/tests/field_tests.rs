use trace_core::field::{log2, Felt, MODULUS, TWO_ADIC_ROOT_OF_UNITY};

#[test]
fn new_reduces_by_the_modulus() {
    assert_eq!(Felt::new(0).as_int(), 0);
    assert_eq!(Felt::new(MODULUS).as_int(), 0);
    assert_eq!(Felt::new(MODULUS - 1).as_int(), MODULUS - 1);
    assert_eq!(Felt::zero().as_int(), 0);
    assert_eq!(Felt::one().as_int(), 1);
}

#[test]
fn add_wraps_at_the_modulus() {
    assert_eq!(Felt::new(3).add(Felt::new(4)).as_int(), 7);
    assert_eq!(Felt::new(MODULUS - 1).add(Felt::new(5)).as_int(), 4);
    assert_eq!(Felt::new(MODULUS - 1).add(Felt::new(1)).as_int(), 0);
}

#[test]
fn mul_reduces_by_the_modulus() {
    assert_eq!(Felt::new(6).mul(Felt::new(7)).as_int(), 42);
    assert_eq!(
        Felt::new(123456789).mul(Felt::new(987654321)).as_int(),
        121932631112635269
    );
    // (-1) * (-1) == 1
    assert_eq!(Felt::new(MODULUS - 1).mul(Felt::new(MODULUS - 1)).as_int(), 1);
}

#[test]
fn exp_matches_repeated_multiplication() {
    assert_eq!(Felt::new(2).exp(10).as_int(), 1024);
    assert_eq!(Felt::new(7).exp(0).as_int(), 1);
    assert_eq!(Felt::new(7).exp(1).as_int(), 7);
    let mut by_hand = Felt::one();
    for _ in 0..13 {
        by_hand = by_hand.mul(Felt::new(3));
    }
    assert_eq!(Felt::new(3).exp(13).as_int(), by_hand.as_int());
}

#[test]
fn two_adic_generator_has_order_two_to_the_32() {
    let g = Felt::new(TWO_ADIC_ROOT_OF_UNITY);
    assert_eq!(g.exp(1u64 << 32).as_int(), 1);
    // g^(2^31) == -1, so the order is exactly 2^32.
    assert_eq!(g.exp(1u64 << 31).as_int(), MODULUS - 1);
}

#[test]
fn root_of_unity_for_small_domains() {
    assert_eq!(Felt::get_root_of_unity(32).as_int(), TWO_ADIC_ROOT_OF_UNITY);
    let g8 = Felt::get_root_of_unity(3);
    assert_eq!(g8.as_int(), 16777216);
    assert_eq!(g8.exp(8).as_int(), 1);
    assert_eq!(g8.exp(4).as_int(), MODULUS - 1);
}

#[test]
fn log2_of_powers_of_two() {
    assert_eq!(log2(1), 0);
    assert_eq!(log2(2), 1);
    assert_eq!(log2(8), 3);
    assert_eq!(log2(4096), 12);
    assert_eq!(log2(1usize << 32), 32);
}
