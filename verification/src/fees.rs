use crate::error::ErrorCode;
use vstd::prelude::*;

verus! {

/// Fee rates are expressed in basis points: parts per `FEE_DENOMINATOR`.
pub const FEE_DENOMINATOR: u128 = 10000;

/// `ceil(amount * fee_bp / 10000)` over unbounded integers.
pub open spec fn spec_fee(amount: int, fee_bp: int) -> int {
    (amount * fee_bp + (FEE_DENOMINATOR - 1)) / (FEE_DENOMINATOR as int)
}

pub struct Fees {}

impl Fees {
    /// Fee owed on a gross amount, rounded up so the pool never
    /// under-collects: `ceil(amount * fee_bp / 10000)`.
    ///
    /// Fails with `Overflow` exactly when the scaled product does not fit
    /// in 128 bits. For any positive amount and positive rate the fee is
    /// at least one unit.
    ///
    /// The rate is not clamped here: above 10000 basis points the fee
    /// exceeds the amount itself. Pool and configuration creation reject
    /// such rates, and the swap reports the underflow.
    pub fn calculate_fee_tokens(amount: u128, fee_bp: u16) -> (r: Result<u128, ErrorCode>)
        ensures
            amount * fee_bp + (FEE_DENOMINATOR - 1) <= u128::MAX ==> r == Ok::<u128, ErrorCode>(
                spec_fee(amount as int, fee_bp as int) as u128,
            ),
            amount * fee_bp + (FEE_DENOMINATOR - 1) > u128::MAX ==> r == Err::<u128, ErrorCode>(
                ErrorCode::Overflow,
            ),
            r matches Ok(f) ==> f == spec_fee(amount as int, fee_bp as int),
            amount > 0 && fee_bp > 0 ==> (r matches Ok(f) ==> f >= 1),
    {
        let prod = match amount.checked_mul(fee_bp as u128) {
            Some(p) => p,
            None => {
                return Err(ErrorCode::Overflow);
            },
        };
        let numerator = match prod.checked_add(FEE_DENOMINATOR - 1) {
            Some(n) => n,
            None => {
                return Err(ErrorCode::Overflow);
            },
        };
        let fee = numerator / FEE_DENOMINATOR;
        proof {
            if amount > 0 && fee_bp > 0 {
                vstd::arithmetic::mul::lemma_mul_strictly_positive(
                    amount as int,
                    fee_bp as int,
                );
                vstd::arithmetic::div_mod::lemma_div_is_ordered(
                    FEE_DENOMINATOR as int,
                    numerator as int,
                    FEE_DENOMINATOR as int,
                );
                vstd::arithmetic::div_mod::lemma_div_by_self(FEE_DENOMINATOR as int);
            }
        }
        Ok(fee)
    }
}

} // verus!
