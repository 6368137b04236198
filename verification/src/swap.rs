use crate::error::ErrorCode;
use crate::fees::{spec_fee, Fees};
use crate::math::lemma_u64_mul_fits_u128;
use vstd::arithmetic::div_mod::{lemma_fundamental_div_mod, lemma_multiply_divide_lt};
use vstd::arithmetic::mul::lemma_mul_upper_bound;
use vstd::prelude::*;

verus! {

/// Constant-product output for a fee-net input amount, rounded down:
/// `amount_in_after_fee * reserve_out / (reserve_in + amount_in_after_fee)`.
pub open spec fn spec_swap_output(
    amount_in_after_fee: int,
    reserve_in: int,
    reserve_out: int,
) -> int {
    amount_in_after_fee * reserve_out / (reserve_in + amount_in_after_fee)
}

/// For any nonzero reserves, the rounded-down constant-product output
/// stays strictly below the output reserve: no swap can drain the pool,
/// and the liquidity-floor rejection is defence in depth.
pub proof fn lemma_swap_output_below_reserve(
    amount_in_after_fee: int,
    reserve_in: int,
    reserve_out: int,
)
    requires
        reserve_in > 0,
        reserve_out > 0,
        amount_in_after_fee >= 0,
    ensures
        spec_swap_output(amount_in_after_fee, reserve_in, reserve_out) < reserve_out,
{
    assert(amount_in_after_fee * reserve_out < (reserve_in + amount_in_after_fee) * reserve_out)
        by (nonlinear_arith)
        requires
            reserve_in > 0,
            reserve_out > 0,
            amount_in_after_fee >= 0,
    ;
    lemma_multiply_divide_lt(
        amount_in_after_fee * reserve_out,
        reserve_in + amount_in_after_fee,
        reserve_out,
    );
}

/// Swap accounting over unbounded integers: the fee is charged on the
/// input, the remainder trades against the constant-product curve, and
/// the result must meet the caller's minimum without draining the output
/// reserve.
pub open spec fn spec_swap(
    amount_in: int,
    min_amount_out: int,
    reserve_in: int,
    reserve_out: int,
    fee_bp: int,
) -> Result<int, ErrorCode> {
    if amount_in <= 0 || min_amount_out <= 0 {
        Err(ErrorCode::MustBeGreaterThanZero)
    } else if reserve_in == 0 || reserve_out == 0 {
        Err(ErrorCode::EmptyPool)
    } else {
        let fee = spec_fee(amount_in, fee_bp);
        if fee > amount_in {
            Err(ErrorCode::Underflow)
        } else {
            let out = spec_swap_output(amount_in - fee, reserve_in, reserve_out);
            if out < min_amount_out {
                Err(ErrorCode::InsufficientOutputAmount)
            } else if out >= reserve_out {
                Err(ErrorCode::InsufficientLiquidity)
            } else {
                Ok(out)
            }
        }
    }
}

/// Output amount for a swap against the given reserves, per
/// [`spec_swap`].
///
/// A successful swap never drains the output reserve, and it never
/// decreases the reserve product `reserve_in * reserve_out`: the fee and
/// the rounded-down output both work in the pool's favor.
pub fn swap(
    amount_in: u64,
    min_amount_out: u64,
    reserve_in: u64,
    reserve_out: u64,
    fee_bp: u16,
) -> (r: Result<u64, ErrorCode>)
    ensures
        ({
            let m = spec_swap(
                amount_in as int,
                min_amount_out as int,
                reserve_in as int,
                reserve_out as int,
                fee_bp as int,
            );
            match r {
                Ok(out) => m == Ok::<int, ErrorCode>(out as int),
                Err(e) => m == Err::<int, ErrorCode>(e),
            }
        }),
        r matches Ok(out) ==> out < reserve_out,
        r matches Ok(out) ==> (reserve_in + amount_in) * (reserve_out - out) >= reserve_in
            * reserve_out,
{
    if amount_in == 0 || min_amount_out == 0 {
        return Err(ErrorCode::MustBeGreaterThanZero);
    }
    if reserve_in == 0 || reserve_out == 0 {
        return Err(ErrorCode::EmptyPool);
    }
    proof {
        lemma_mul_upper_bound(amount_in as int, u64::MAX as int, fee_bp as int, u16::MAX as int);
    }
    let fee = match Fees::calculate_fee_tokens(amount_in as u128, fee_bp) {
        Ok(f) => f,
        Err(e) => {
            return Err(e);
        },
    };
    if fee > amount_in as u128 {
        return Err(ErrorCode::Underflow);
    }
    let amount_in_after_fee = amount_in - (fee as u64);
    proof {
        lemma_u64_mul_fits_u128(amount_in_after_fee as int, reserve_out as int);
    }
    let numerator = (amount_in_after_fee as u128) * (reserve_out as u128);
    let denominator = (reserve_in as u128) + (amount_in_after_fee as u128);
    let out_wide = numerator / denominator;
    proof {
        lemma_swap_output_below_reserve(
            amount_in_after_fee as int,
            reserve_in as int,
            reserve_out as int,
        );
    }
    let amount_out = out_wide as u64;
    if amount_out < min_amount_out {
        return Err(ErrorCode::InsufficientOutputAmount);
    }
    if amount_out >= reserve_out {
        return Err(ErrorCode::InsufficientLiquidity);
    }
    proof {
        lemma_fundamental_div_mod(numerator as int, denominator as int);
        assert((reserve_in + amount_in) * (reserve_out - amount_out) >= reserve_in * reserve_out)
            by (nonlinear_arith)
            requires
                denominator * amount_out <= amount_in_after_fee * reserve_out,
                denominator == reserve_in + amount_in_after_fee,
                0 <= amount_in_after_fee <= amount_in,
                0 <= amount_out <= reserve_out,
                reserve_in > 0,
        ;
    }
    Ok(amount_out)
}

} // verus!
