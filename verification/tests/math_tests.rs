use liquidity_pools::math::sqrt;

#[test]
fn sqrt_small_values() {
    assert_eq!(sqrt(0), 0);
    assert_eq!(sqrt(1), 1);
    assert_eq!(sqrt(2), 1);
    assert_eq!(sqrt(3), 1);
    assert_eq!(sqrt(4), 2);
    assert_eq!(sqrt(15), 3);
    assert_eq!(sqrt(16), 4);
    assert_eq!(sqrt(17), 4);
}

#[test]
fn sqrt_perfect_squares() {
    for root in [5u128, 99, 1_000, 65_535, 4_294_967_295] {
        assert_eq!(sqrt(root * root), root as u64);
        assert_eq!(sqrt(root * root - 1), (root - 1) as u64);
        assert_eq!(sqrt(root * root + 1), root as u64);
    }
}

#[test]
fn sqrt_largest_radicand() {
    // floor(sqrt(2^128 - 1)) = 2^64 - 1: the root always fits in 64 bits.
    assert_eq!(sqrt(u128::MAX), u64::MAX);
    assert_eq!(sqrt((u64::MAX as u128) * (u64::MAX as u128)), u64::MAX);
}
