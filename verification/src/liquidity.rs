use crate::error::ErrorCode;
use crate::math::{
    is_floor_sqrt, lemma_isqrt_is_floor_sqrt, lemma_u64_mul_fits_u128, spec_isqrt, sqrt,
};
use vstd::arithmetic::div_mod::{
    lemma_fundamental_div_mod, lemma_multiply_divide_le,
};
use vstd::arithmetic::mul::lemma_mul_inequality;
use vstd::prelude::*;

verus! {

/// Amounts actually taken from a depositor and the shares issued for them.
#[derive(Clone, Copy, Debug, PartialEq, Eq, Structural)]
pub struct DepositOutcome {
    pub used_a: u64,
    pub used_b: u64,
    pub shares_issued: u64,
}

/// Amounts paid out to a withdrawer for the shares burned.
#[derive(Clone, Copy, Debug, PartialEq, Eq, Structural)]
pub struct WithdrawOutcome {
    pub amount_a: u64,
    pub amount_b: u64,
}

/// Amount of asset B matching `desired_a` at the current reserve ratio,
/// rounded down: `desired_a * reserve_b / reserve_a`.
pub open spec fn spec_optimal_b(desired_a: int, reserve_a: int, reserve_b: int) -> int {
    desired_a * reserve_b / reserve_a
}

/// Amount of asset A matching `desired_b` at the current reserve ratio,
/// rounded down: `desired_b * reserve_a / reserve_b`.
pub open spec fn spec_optimal_a(desired_b: int, reserve_a: int, reserve_b: int) -> int {
    desired_b * reserve_a / reserve_b
}

/// Shares issued for a deposit: the smaller of the two ratio-implied
/// share counts, so rounding can never over-issue relative to either
/// asset's contribution.
pub open spec fn spec_shares_issued(
    used_a: int,
    used_b: int,
    reserve_a: int,
    reserve_b: int,
    supply: int,
) -> int {
    let by_a = used_a * supply / reserve_a;
    let by_b = used_b * supply / reserve_b;
    if by_a <= by_b {
        by_a
    } else {
        by_b
    }
}

/// A share holder's claim on one reserve, rounded down in the pool's
/// favor: `reserve * shares / supply`.
pub open spec fn spec_entitlement(reserve: int, supply: int, shares: int) -> int {
    reserve * shares / supply
}

/// Deposit accounting over unbounded integers.
///
/// On the first deposit (either reserve empty) the full desired amounts
/// are taken at any ratio and `floor(sqrt(used_a * used_b))` shares are
/// issued. Otherwise the binding desired amount is used in full and the
/// other amount is matched to the reserve ratio, rounded down; issuance
/// that would not fit a 64-bit share amount fails with `Overflow`.
pub open spec fn spec_add_liquidity(
    desired_a: int,
    desired_b: int,
    min_a: int,
    min_b: int,
    reserve_a: int,
    reserve_b: int,
    supply: int,
) -> Result<(int, int, int), ErrorCode> {
    if desired_a <= 0 || desired_b <= 0 {
        Err(ErrorCode::MustBeGreaterThanZero)
    } else if reserve_a == 0 || reserve_b == 0 {
        Ok((desired_a, desired_b, spec_isqrt(desired_a * desired_b)))
    } else {
        let optimal_b = spec_optimal_b(desired_a, reserve_a, reserve_b);
        if optimal_b <= desired_b {
            if optimal_b < min_b {
                Err(ErrorCode::InsufficientBAmount)
            } else {
                let shares = spec_shares_issued(desired_a, optimal_b, reserve_a, reserve_b, supply);
                if shares > u64::MAX {
                    Err(ErrorCode::Overflow)
                } else {
                    Ok((desired_a, optimal_b, shares))
                }
            }
        } else {
            let optimal_a = spec_optimal_a(desired_b, reserve_a, reserve_b);
            if optimal_a < min_a {
                Err(ErrorCode::InsufficientAAmount)
            } else {
                let shares = spec_shares_issued(optimal_a, desired_b, reserve_a, reserve_b, supply);
                if shares > u64::MAX {
                    Err(ErrorCode::Overflow)
                } else {
                    Ok((optimal_a, desired_b, shares))
                }
            }
        }
    }
}

/// Withdrawal accounting over unbounded integers: each reserve is paid
/// out in proportion to the shares burned, rounded down. A pool with an
/// empty reserve or no outstanding shares has nothing to redeem.
pub open spec fn spec_remove_liquidity(
    lp_amount: int,
    min_a: int,
    min_b: int,
    reserve_a: int,
    reserve_b: int,
    supply: int,
) -> Result<(int, int), ErrorCode> {
    if lp_amount <= 0 || min_a <= 0 || min_b <= 0 {
        Err(ErrorCode::MustBeGreaterThanZero)
    } else if reserve_a == 0 || reserve_b == 0 || supply == 0 {
        Err(ErrorCode::EmptyPool)
    } else {
        let out_a = spec_entitlement(reserve_a, supply, lp_amount);
        let out_b = spec_entitlement(reserve_b, supply, lp_amount);
        if out_a > u64::MAX || out_b > u64::MAX {
            Err(ErrorCode::Overflow)
        } else if out_a < min_a {
            Err(ErrorCode::InsufficientAAmount)
        } else if out_b < min_b {
            Err(ErrorCode::InsufficientBAmount)
        } else {
            Ok((out_a, out_b))
        }
    }
}

/// For all positive desired amounts, the first deposit into an empty
/// pool takes exactly those amounts — at any ratio, regardless of the
/// caller's minimums — and issues the rounded-down square root of their
/// product as shares.
pub proof fn lemma_initial_deposit(desired_a: int, desired_b: int, min_a: int, min_b: int)
    requires
        desired_a > 0,
        desired_b > 0,
    ensures
        spec_add_liquidity(desired_a, desired_b, min_a, min_b, 0, 0, 0) == Ok::<
            (int, int, int),
            ErrorCode,
        >((desired_a, desired_b, spec_isqrt(desired_a * desired_b))),
        is_floor_sqrt(spec_isqrt(desired_a * desired_b), desired_a * desired_b),
{
    vstd::arithmetic::mul::lemma_mul_strictly_positive(desired_a, desired_b);
    lemma_isqrt_is_floor_sqrt(desired_a * desired_b);
}

/// When the B side is the binding constraint, the A amount matched to the
/// ratio never exceeds the desired A amount.
proof fn lemma_optimal_a_le_desired(desired_a: int, desired_b: int, reserve_a: int, reserve_b: int)
    requires
        reserve_a > 0,
        reserve_b > 0,
        desired_a >= 0,
        desired_b >= 0,
        spec_optimal_b(desired_a, reserve_a, reserve_b) > desired_b,
    ensures
        spec_optimal_a(desired_b, reserve_a, reserve_b) <= desired_a,
{
    let q = desired_a * reserve_b / reserve_a;
    lemma_fundamental_div_mod(desired_a * reserve_b, reserve_a);
    lemma_mul_inequality(desired_b + 1, q, reserve_a);
    assert(desired_b * reserve_a < desired_a * reserve_b) by (nonlinear_arith)
        requires
            (desired_b + 1) * reserve_a <= q * reserve_a,
            desired_a * reserve_b == reserve_a * q + (desired_a * reserve_b) % reserve_a,
            (desired_a * reserve_b) % reserve_a >= 0,
            reserve_a > 0,
    ;
    vstd::arithmetic::mul::lemma_mul_is_commutative(desired_a, reserve_b);
    lemma_multiply_divide_le(desired_b * reserve_a, reserve_b, desired_a);
}

/// Issued shares times a reserve never exceed the matching used amount
/// times the supply: the `min` in the issuance formula rounds in the
/// pool's favor on both sides.
pub proof fn lemma_shares_issued_bounds(
    used_a: int,
    used_b: int,
    reserve_a: int,
    reserve_b: int,
    supply: int,
)
    requires
        reserve_a > 0,
        reserve_b > 0,
        used_a >= 0,
        used_b >= 0,
        supply >= 0,
    ensures
        spec_shares_issued(used_a, used_b, reserve_a, reserve_b, supply) * reserve_a <= used_a
            * supply,
        spec_shares_issued(used_a, used_b, reserve_a, reserve_b, supply) * reserve_b <= used_b
            * supply,
        spec_shares_issued(used_a, used_b, reserve_a, reserve_b, supply) >= 0,
{
    let by_a = used_a * supply / reserve_a;
    let by_b = used_b * supply / reserve_b;
    let m = spec_shares_issued(used_a, used_b, reserve_a, reserve_b, supply);
    lemma_fundamental_div_mod(used_a * supply, reserve_a);
    lemma_fundamental_div_mod(used_b * supply, reserve_b);
    vstd::arithmetic::mul::lemma_mul_nonnegative(used_a, supply);
    vstd::arithmetic::mul::lemma_mul_nonnegative(used_b, supply);
    vstd::arithmetic::div_mod::lemma_div_pos_is_pos(used_a * supply, reserve_a);
    vstd::arithmetic::div_mod::lemma_div_pos_is_pos(used_b * supply, reserve_b);
    assert(m * reserve_a <= used_a * supply) by (nonlinear_arith)
        requires
            m <= by_a,
            m >= 0,
            reserve_a > 0,
            used_a * supply == reserve_a * by_a + (used_a * supply) % reserve_a,
            (used_a * supply) % reserve_a >= 0,
    ;
    assert(m * reserve_b <= used_b * supply) by (nonlinear_arith)
        requires
            m <= by_b,
            m >= 0,
            reserve_b > 0,
            used_b * supply == reserve_b * by_b + (used_b * supply) % reserve_b,
            (used_b * supply) % reserve_b >= 0,
    ;
}

/// Depositing into a pool with nonzero reserves and then immediately
/// withdrawing exactly the shares just issued can never pay out more of
/// either asset than was deposited: truncation always favors the pool.
pub proof fn lemma_deposit_withdraw_never_gains(
    desired_a: int,
    desired_b: int,
    min_a: int,
    min_b: int,
    reserve_a: int,
    reserve_b: int,
    supply: int,
    used_a: int,
    used_b: int,
    shares: int,
)
    requires
        reserve_a > 0,
        reserve_b > 0,
        supply > 0,
        spec_add_liquidity(desired_a, desired_b, min_a, min_b, reserve_a, reserve_b, supply)
            == Ok::<(int, int, int), ErrorCode>((used_a, used_b, shares)),
    ensures
        spec_entitlement(reserve_a + used_a, supply + shares, shares) <= used_a,
        spec_entitlement(reserve_b + used_b, supply + shares, shares) <= used_b,
{
    lemma_shares_issued_bounds(used_a, used_b, reserve_a, reserve_b, supply);
    assert((reserve_a + used_a) * shares <= (supply + shares) * used_a) by (nonlinear_arith)
        requires
            shares * reserve_a <= used_a * supply,
            shares >= 0,
            used_a >= 0,
    ;
    assert((reserve_b + used_b) * shares <= (supply + shares) * used_b) by (nonlinear_arith)
        requires
            shares * reserve_b <= used_b * supply,
            shares >= 0,
            used_b >= 0,
    ;
    lemma_multiply_divide_le((reserve_a + used_a) * shares, supply + shares, used_a);
    lemma_multiply_divide_le((reserve_b + used_b) * shares, supply + shares, used_b);
}

/// Shares issued for the used amounts, or `Overflow` when the count does
/// not fit a 64-bit amount.
fn issue_shares(used_a: u64, used_b: u64, reserve_a: u64, reserve_b: u64, supply: u64) -> (r:
    Result<u64, ErrorCode>)
    requires
        reserve_a > 0,
        reserve_b > 0,
    ensures
        ({
            let shares = spec_shares_issued(
                used_a as int,
                used_b as int,
                reserve_a as int,
                reserve_b as int,
                supply as int,
            );
            if shares > u64::MAX {
                r == Err::<u64, ErrorCode>(ErrorCode::Overflow)
            } else {
                r == Ok::<u64, ErrorCode>(shares as u64)
            }
        }),
{
    proof {
        lemma_u64_mul_fits_u128(used_a as int, supply as int);
        lemma_u64_mul_fits_u128(used_b as int, supply as int);
    }
    let by_a = (used_a as u128) * (supply as u128) / (reserve_a as u128);
    let by_b = (used_b as u128) * (supply as u128) / (reserve_b as u128);
    let shares = if by_a <= by_b {
        by_a
    } else {
        by_b
    };
    if shares > u64::MAX as u128 {
        Err(ErrorCode::Overflow)
    } else {
        Ok(shares as u64)
    }
}

/// Deposit accounting for the current pool state, per
/// [`spec_add_liquidity`]. The amounts actually used never exceed the
/// desired amounts.
pub fn add_liquidity(
    amount_a_desired: u64,
    amount_b_desired: u64,
    amount_a_min: u64,
    amount_b_min: u64,
    reserve_a: u64,
    reserve_b: u64,
    lp_supply: u64,
) -> (r: Result<DepositOutcome, ErrorCode>)
    ensures
        ({
            let m = spec_add_liquidity(
                amount_a_desired as int,
                amount_b_desired as int,
                amount_a_min as int,
                amount_b_min as int,
                reserve_a as int,
                reserve_b as int,
                lp_supply as int,
            );
            match r {
                Ok(o) => m == Ok::<(int, int, int), ErrorCode>(
                    (o.used_a as int, o.used_b as int, o.shares_issued as int),
                ),
                Err(e) => m == Err::<(int, int, int), ErrorCode>(e),
            }
        }),
        r matches Ok(o) ==> o.used_a <= amount_a_desired && o.used_b <= amount_b_desired,
{
    if amount_a_desired == 0 || amount_b_desired == 0 {
        return Err(ErrorCode::MustBeGreaterThanZero);
    }
    if reserve_a == 0 || reserve_b == 0 {
        proof {
            lemma_u64_mul_fits_u128(amount_a_desired as int, amount_b_desired as int);
        }
        let product = (amount_a_desired as u128) * (amount_b_desired as u128);
        let shares_issued = sqrt(product);
        return Ok(
            DepositOutcome {
                used_a: amount_a_desired,
                used_b: amount_b_desired,
                shares_issued,
            },
        );
    }
    proof {
        lemma_u64_mul_fits_u128(amount_a_desired as int, reserve_b as int);
        lemma_u64_mul_fits_u128(amount_b_desired as int, reserve_a as int);
    }
    let optimal_b = (amount_a_desired as u128) * (reserve_b as u128) / (reserve_a as u128);
    if optimal_b <= amount_b_desired as u128 {
        if optimal_b < amount_b_min as u128 {
            return Err(ErrorCode::InsufficientBAmount);
        }
        let used_b = optimal_b as u64;
        match issue_shares(amount_a_desired, used_b, reserve_a, reserve_b, lp_supply) {
            Ok(shares_issued) => Ok(
                DepositOutcome { used_a: amount_a_desired, used_b, shares_issued },
            ),
            Err(e) => Err(e),
        }
    } else {
        proof {
            lemma_optimal_a_le_desired(
                amount_a_desired as int,
                amount_b_desired as int,
                reserve_a as int,
                reserve_b as int,
            );
            vstd::arithmetic::div_mod::lemma_div_pos_is_pos(
                amount_b_desired as int * reserve_a as int,
                reserve_b as int,
            );
            vstd::arithmetic::mul::lemma_mul_nonnegative(
                amount_b_desired as int,
                reserve_a as int,
            );
        }
        let optimal_a = ((amount_b_desired as u128) * (reserve_a as u128) / (reserve_b as u128))
            as u64;
        if optimal_a < amount_a_min {
            return Err(ErrorCode::InsufficientAAmount);
        }
        match issue_shares(optimal_a, amount_b_desired, reserve_a, reserve_b, lp_supply) {
            Ok(shares_issued) => Ok(
                DepositOutcome { used_a: optimal_a, used_b: amount_b_desired, shares_issued },
            ),
            Err(e) => Err(e),
        }
    }
}

/// Withdrawal accounting for the current pool state, per
/// [`spec_remove_liquidity`]. Overflow of a 64-bit payout is reported
/// before the caller's minimums are checked.
pub fn remove_liquidity(
    lp_amount: u64,
    amount_a_min: u64,
    amount_b_min: u64,
    reserve_a: u64,
    reserve_b: u64,
    lp_supply: u64,
) -> (r: Result<WithdrawOutcome, ErrorCode>)
    ensures
        ({
            let m = spec_remove_liquidity(
                lp_amount as int,
                amount_a_min as int,
                amount_b_min as int,
                reserve_a as int,
                reserve_b as int,
                lp_supply as int,
            );
            match r {
                Ok(o) => m == Ok::<(int, int), ErrorCode>((o.amount_a as int, o.amount_b as int)),
                Err(e) => m == Err::<(int, int), ErrorCode>(e),
            }
        }),
{
    if lp_amount == 0 || amount_a_min == 0 || amount_b_min == 0 {
        return Err(ErrorCode::MustBeGreaterThanZero);
    }
    if reserve_a == 0 || reserve_b == 0 || lp_supply == 0 {
        return Err(ErrorCode::EmptyPool);
    }
    proof {
        lemma_u64_mul_fits_u128(reserve_a as int, lp_amount as int);
        lemma_u64_mul_fits_u128(reserve_b as int, lp_amount as int);
    }
    let out_a = (reserve_a as u128) * (lp_amount as u128) / (lp_supply as u128);
    let out_b = (reserve_b as u128) * (lp_amount as u128) / (lp_supply as u128);
    if out_a > u64::MAX as u128 || out_b > u64::MAX as u128 {
        return Err(ErrorCode::Overflow);
    }
    if out_a < amount_a_min as u128 {
        return Err(ErrorCode::InsufficientAAmount);
    }
    if out_b < amount_b_min as u128 {
        return Err(ErrorCode::InsufficientBAmount);
    }
    Ok(WithdrawOutcome { amount_a: out_a as u64, amount_b: out_b as u64 })
}

} // verus!
