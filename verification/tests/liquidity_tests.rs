use liquidity_pools::error::ErrorCode;
use liquidity_pools::liquidity::{add_liquidity, remove_liquidity, DepositOutcome, WithdrawOutcome};

#[test]
fn initial_deposit_takes_full_amounts_and_issues_sqrt_shares() {
    // floor(sqrt(4 * 9)) = 6.
    assert_eq!(
        add_liquidity(4, 9, 1, 1, 0, 0, 0),
        Ok(DepositOutcome { used_a: 4, used_b: 9, shares_issued: 6 })
    );
    // floor(sqrt(2 * 3)) = 2.
    assert_eq!(
        add_liquidity(2, 3, 1, 1, 0, 0, 0),
        Ok(DepositOutcome { used_a: 2, used_b: 3, shares_issued: 2 })
    );
    // The smallest pool: floor(sqrt(1)) = 1.
    assert_eq!(
        add_liquidity(1, 1, 1, 1, 0, 0, 0),
        Ok(DepositOutcome { used_a: 1, used_b: 1, shares_issued: 1 })
    );
}

#[test]
fn initial_deposit_largest_amounts() {
    // floor(sqrt(u64::MAX^2)) = u64::MAX: the share count always fits.
    assert_eq!(
        add_liquidity(u64::MAX, u64::MAX, 1, 1, 0, 0, 0),
        Ok(DepositOutcome { used_a: u64::MAX, used_b: u64::MAX, shares_issued: u64::MAX })
    );
}

#[test]
fn initial_deposit_ignores_ratio_and_minimums() {
    // With either reserve empty there is no prior price to match.
    assert_eq!(
        add_liquidity(1_000_000, 1, 1, 1, 0, 5, 0),
        Ok(DepositOutcome { used_a: 1_000_000, used_b: 1, shares_issued: 1_000 })
    );
}

#[test]
fn deposit_ratio_example() {
    // reserves (1000, 2000), supply 500: optimalB = 100*2000/1000 = 200,
    // shares = min(100*500/1000, 200*500/2000) = 50.
    assert_eq!(
        add_liquidity(100, 1000, 1, 1, 1000, 2000, 500),
        Ok(DepositOutcome { used_a: 100, used_b: 200, shares_issued: 50 })
    );
}

#[test]
fn deposit_b_side_binding() {
    // optimalB = 1000*2000/1000 = 2000 > 100, so A is matched instead:
    // optimalA = 100*1000/2000 = 50; shares = min(50*500/1000, 100*500/2000) = 25.
    assert_eq!(
        add_liquidity(1000, 100, 1, 1, 1000, 2000, 500),
        Ok(DepositOutcome { used_a: 50, used_b: 100, shares_issued: 25 })
    );
}

#[test]
fn deposit_zero_amounts_rejected() {
    assert_eq!(
        add_liquidity(0, 10, 1, 1, 1000, 2000, 500),
        Err(ErrorCode::MustBeGreaterThanZero)
    );
    assert_eq!(
        add_liquidity(10, 0, 1, 1, 1000, 2000, 500),
        Err(ErrorCode::MustBeGreaterThanZero)
    );
}

#[test]
fn deposit_insufficient_b_amount() {
    // optimalB = 200 but the caller insists on at least 201.
    assert_eq!(
        add_liquidity(100, 1000, 1, 201, 1000, 2000, 500),
        Err(ErrorCode::InsufficientBAmount)
    );
}

#[test]
fn deposit_insufficient_a_amount() {
    // optimalA = 50 but the caller insists on at least 51.
    assert_eq!(
        add_liquidity(1000, 100, 51, 1, 1000, 2000, 500),
        Err(ErrorCode::InsufficientAAmount)
    );
}

#[test]
fn deposit_share_overflow_reported() {
    // Tiny reserves with a huge supply imply more shares than fit in
    // 64 bits.
    assert_eq!(
        add_liquidity(2, 2, 1, 1, 1, 1, u64::MAX),
        Err(ErrorCode::Overflow)
    );
}

#[test]
fn withdraw_proportional_entitlement() {
    // Burning 50 of 500 shares claims a tenth of each reserve.
    assert_eq!(
        remove_liquidity(50, 1, 1, 1000, 2000, 500),
        Ok(WithdrawOutcome { amount_a: 100, amount_b: 200 })
    );
}

#[test]
fn withdraw_truncates_in_pool_favor() {
    // 1 of 3 shares on reserves (100, 200): floor(100/3) = 33,
    // floor(200/3) = 66.
    assert_eq!(
        remove_liquidity(1, 1, 1, 100, 200, 3),
        Ok(WithdrawOutcome { amount_a: 33, amount_b: 66 })
    );
}

#[test]
fn withdraw_zero_inputs_rejected() {
    assert_eq!(
        remove_liquidity(0, 1, 1, 1000, 2000, 500),
        Err(ErrorCode::MustBeGreaterThanZero)
    );
    assert_eq!(
        remove_liquidity(50, 0, 1, 1000, 2000, 500),
        Err(ErrorCode::MustBeGreaterThanZero)
    );
    assert_eq!(
        remove_liquidity(50, 1, 0, 1000, 2000, 500),
        Err(ErrorCode::MustBeGreaterThanZero)
    );
}

#[test]
fn withdraw_empty_pool_rejected() {
    assert_eq!(
        remove_liquidity(50, 1, 1, 0, 2000, 500),
        Err(ErrorCode::EmptyPool)
    );
    assert_eq!(
        remove_liquidity(50, 1, 1, 1000, 0, 500),
        Err(ErrorCode::EmptyPool)
    );
    assert_eq!(
        remove_liquidity(50, 1, 1, 1000, 2000, 0),
        Err(ErrorCode::EmptyPool)
    );
}

#[test]
fn withdraw_minimums_enforced() {
    assert_eq!(
        remove_liquidity(50, 101, 1, 1000, 2000, 500),
        Err(ErrorCode::InsufficientAAmount)
    );
    assert_eq!(
        remove_liquidity(50, 1, 201, 1000, 2000, 500),
        Err(ErrorCode::InsufficientBAmount)
    );
}

#[test]
fn withdraw_overflow_reported() {
    // Burning more shares than the supply against a full reserve would
    // entitle to more than 64 bits can hold.
    assert_eq!(
        remove_liquidity(2, 1, 1, u64::MAX, 1, 1),
        Err(ErrorCode::Overflow)
    );
}

#[test]
fn deposit_then_withdraw_returns_no_more() {
    // Depositing into a live pool and burning the shares just issued
    // never pays back more than went in.
    let reserve_a = 1_000u64;
    let reserve_b = 2_000u64;
    let supply = 500u64;
    let deposit = add_liquidity(333, 1_000, 1, 1, reserve_a, reserve_b, supply).unwrap();
    let withdrawal = remove_liquidity(
        deposit.shares_issued,
        1,
        1,
        reserve_a + deposit.used_a,
        reserve_b + deposit.used_b,
        supply + deposit.shares_issued,
    )
    .unwrap();
    assert!(withdrawal.amount_a <= deposit.used_a);
    assert!(withdrawal.amount_b <= deposit.used_b);
}
