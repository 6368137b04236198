use liquidity_pools::error::ErrorCode;
use liquidity_pools::fees::Fees;

#[test]
fn fee_rounds_up_smallest_amount() {
    // ceil(1 * 1 / 10000) = 1: a positive amount at a positive rate is
    // never charged a zero fee.
    assert_eq!(Fees::calculate_fee_tokens(1, 1), Ok(1));
}

#[test]
fn fee_is_positive_for_positive_inputs() {
    for amount in [1u128, 2, 9_999, 10_000, 10_001, 123_456_789] {
        for fee_bp in [1u16, 2, 29, 30, 9_999, 10_000] {
            let fee = Fees::calculate_fee_tokens(amount, fee_bp).unwrap();
            assert!(fee >= 1);
        }
    }
}

#[test]
fn fee_exact_values() {
    // ceil(1000 * 30 / 10000) = 3.
    assert_eq!(Fees::calculate_fee_tokens(1000, 30), Ok(3));
    // An exact multiple needs no rounding.
    assert_eq!(Fees::calculate_fee_tokens(10_000, 25), Ok(25));
    // ceil(999 * 25 / 10000) = ceil(2.4975) = 3.
    assert_eq!(Fees::calculate_fee_tokens(999, 25), Ok(3));
}

#[test]
fn fee_zero_rate_or_zero_amount_is_zero() {
    assert_eq!(Fees::calculate_fee_tokens(123_456, 0), Ok(0));
    assert_eq!(Fees::calculate_fee_tokens(0, 10_000), Ok(0));
}

#[test]
fn fee_full_rate_charges_whole_amount() {
    assert_eq!(Fees::calculate_fee_tokens(777, 10_000), Ok(777));
}

#[test]
fn fee_overflow_is_reported() {
    assert_eq!(
        Fees::calculate_fee_tokens(u128::MAX, 2),
        Err(ErrorCode::Overflow)
    );
    assert_eq!(
        Fees::calculate_fee_tokens(u128::MAX / 3, 10_000),
        Err(ErrorCode::Overflow)
    );
}
