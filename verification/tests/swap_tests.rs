use liquidity_pools::error::ErrorCode;
use liquidity_pools::swap::swap;

#[test]
fn swap_deterministic_example() {
    // fee = ceil(1000 * 30 / 10000) = 3, net input 997,
    // out = floor(997 * 10000 / (10000 + 997)) = 906.
    assert_eq!(swap(1000, 1, 10_000, 10_000, 30), Ok(906));
}

#[test]
fn swap_zero_amounts_rejected() {
    assert_eq!(
        swap(0, 1, 10_000, 10_000, 30),
        Err(ErrorCode::MustBeGreaterThanZero)
    );
    assert_eq!(
        swap(1000, 0, 10_000, 10_000, 30),
        Err(ErrorCode::MustBeGreaterThanZero)
    );
}

#[test]
fn swap_empty_pool_rejected() {
    assert_eq!(swap(1000, 1, 0, 10_000, 30), Err(ErrorCode::EmptyPool));
    assert_eq!(swap(1000, 1, 10_000, 0, 30), Err(ErrorCode::EmptyPool));
}

#[test]
fn swap_slippage_protection() {
    // The example swap pays out 906; demanding 907 must fail.
    assert_eq!(
        swap(1000, 907, 10_000, 10_000, 30),
        Err(ErrorCode::InsufficientOutputAmount)
    );
    assert_eq!(swap(1000, 906, 10_000, 10_000, 30), Ok(906));
}

#[test]
fn swap_fee_above_full_rate_underflows() {
    // fee = ceil(1000 * 10001 / 10000) = 1001 > 1000.
    assert_eq!(
        swap(1000, 1, 10_000, 10_000, 10_001),
        Err(ErrorCode::Underflow)
    );
}

#[test]
fn swap_full_fee_rate_leaves_nothing_to_trade() {
    // fee = amount, net input 0, output 0 < any positive minimum.
    assert_eq!(
        swap(1000, 1, 10_000, 10_000, 10_000),
        Err(ErrorCode::InsufficientOutputAmount)
    );
}

#[test]
fn swap_never_drains_output_reserve() {
    // Even an enormous input against a tiny output reserve leaves at
    // least one unit behind.
    let out = swap(u64::MAX / 2, 1, 1, 5, 0).unwrap();
    assert!(out < 5);
    assert_eq!(out, 4);
}

#[test]
fn swap_product_never_decreases() {
    let cases = [
        (1000u64, 10_000u64, 10_000u64, 30u16),
        (1, 1, 1, 0),
        (7, 13, 29, 9_999),
        (123_456, 1_000_000, 5, 1),
    ];
    for (amount_in, reserve_in, reserve_out, fee_bp) in cases {
        if let Ok(out) = swap(amount_in, 1, reserve_in, reserve_out, fee_bp) {
            let before = (reserve_in as u128) * (reserve_out as u128);
            let after = (reserve_in as u128 + amount_in as u128) * (reserve_out as u128 - out as u128);
            assert!(after >= before);
        }
    }
}
