use crate::error::ErrorCode;
use crate::liquidity::{
    add_liquidity, remove_liquidity, spec_add_liquidity, spec_remove_liquidity, DepositOutcome,
    WithdrawOutcome,
};
use crate::math::lemma_isqrt_is_floor_sqrt;
use crate::swap::spec_swap;
use vstd::arithmetic::div_mod::{lemma_div_multiples_vanish, lemma_multiply_divide_lt};
use vstd::arithmetic::mul::{
    lemma_mul_inequality, lemma_mul_is_commutative, lemma_mul_strictly_positive,
};
use vstd::prelude::*;

verus! {

/// Identity record of a pool: the ordered pair of asset mints it serves,
/// the vaults holding its reserves, and its fee rate in basis points.
///
/// Asset and vault identities are opaque identifiers; the core only
/// compares them. Canonical ordering — mint A strictly above mint B —
/// prevents two pools for the same unordered pair.
#[derive(Clone, Copy, Debug, PartialEq, Eq, Structural)]
pub struct Pool {
    pub token_mint_a: u64,
    pub token_mint_b: u64,
    pub token_vault_a: u64,
    pub token_vault_b: u64,
    pub fee_bp: u16,
}

impl Pool {
    /// Canonical asset order, and a fee that cannot exceed the whole
    /// amount it is charged on.
    pub open spec fn wf(self) -> bool {
        &&& self.token_mint_a > self.token_mint_b
        &&& self.fee_bp <= 10000
    }
}

/// Which asset enters the pool in a swap.
#[derive(Clone, Copy, Debug, PartialEq, Eq, Structural)]
pub enum SwapDirection {
    /// Asset A is paid in, asset B is paid out.
    AToB,
    /// Asset B is paid in, asset A is paid out.
    BToA,
}

/// Creates the identity record for a pool, rejecting a non-canonical
/// asset ordering and a fee rate above 100%.
pub fn create_pool(
    token_mint_a: u64,
    token_mint_b: u64,
    token_vault_a: u64,
    token_vault_b: u64,
    fee_bp: u16,
) -> (r: Result<Pool, ErrorCode>)
    ensures
        token_mint_a <= token_mint_b ==> r == Err::<Pool, ErrorCode>(ErrorCode::InvalidTokenOrder),
        token_mint_a > token_mint_b && fee_bp > 10000 ==> r == Err::<Pool, ErrorCode>(
            ErrorCode::InvalidAmount,
        ),
        token_mint_a > token_mint_b && fee_bp <= 10000 ==> r == Ok::<Pool, ErrorCode>(
            (Pool { token_mint_a, token_mint_b, token_vault_a, token_vault_b, fee_bp }),
        ),
        r matches Ok(p) ==> p.wf(),
{
    if token_mint_a <= token_mint_b {
        return Err(ErrorCode::InvalidTokenOrder);
    }
    if fee_bp > 10000 {
        return Err(ErrorCode::InvalidAmount);
    }
    Ok(Pool { token_mint_a, token_mint_b, token_vault_a, token_vault_b, fee_bp })
}

/// The ledger-held state of one pool: its two vault balances and the
/// outstanding liquidity-share supply.
///
/// Every operation reads this state fresh, computes, and applies its
/// writes as one indivisible step: on any failure the state is left
/// exactly as it was.
#[derive(Clone, Copy, Debug, PartialEq, Eq, Structural)]
pub struct PoolLedger {
    pub reserve_a: u64,
    pub reserve_b: u64,
    pub lp_supply: u64,
}

impl PoolLedger {
    /// Shares exist exactly when the pool holds assets: the supply is
    /// zero if and only if both reserves are zero.
    pub open spec fn inv(self) -> bool {
        (self.lp_supply == 0) <==> (self.reserve_a == 0 && self.reserve_b == 0)
    }

    /// A pool starts with nothing: no reserves and no shares.
    pub fn new() -> (r: PoolLedger)
        ensures
            r.reserve_a == 0 && r.reserve_b == 0 && r.lp_supply == 0,
            r.inv(),
    {
        PoolLedger { reserve_a: 0, reserve_b: 0, lp_supply: 0 }
    }

    /// The current vault balances, exactly as stored.
    pub fn reserves(&self) -> (r: (u64, u64))
        ensures
            r.0 == self.reserve_a,
            r.1 == self.reserve_b,
    {
        (self.reserve_a, self.reserve_b)
    }

    /// The current share supply, exactly as stored.
    pub fn share_supply(&self) -> (r: u64)
        ensures
            r == self.lp_supply,
    {
        self.lp_supply
    }

    /// Deposits liquidity: computes the used amounts and shares per
    /// [`spec_add_liquidity`] on the current state, then moves both
    /// assets into the vaults and mints the shares as one atomic step.
    ///
    /// Reserve growth can never shrink the reserve product, and the
    /// supply-reserves invariant is preserved.
    pub fn deposit(
        &mut self,
        amount_a_desired: u64,
        amount_b_desired: u64,
        amount_a_min: u64,
        amount_b_min: u64,
    ) -> (r: Result<DepositOutcome, ErrorCode>)
        ensures
            ({
                let m = spec_add_liquidity(
                    amount_a_desired as int,
                    amount_b_desired as int,
                    amount_a_min as int,
                    amount_b_min as int,
                    old(self).reserve_a as int,
                    old(self).reserve_b as int,
                    old(self).lp_supply as int,
                );
                match m {
                    Err(e) => r == Err::<DepositOutcome, ErrorCode>(e)
                        && *final(self) == *old(self),
                    Ok(t) => {
                        if t.0 + old(self).reserve_a <= u64::MAX && t.1 + old(self).reserve_b
                            <= u64::MAX && t.2 + old(self).lp_supply <= u64::MAX {
                            &&& r matches Ok(o)
                            &&& o.used_a == t.0
                            &&& o.used_b == t.1
                            &&& o.shares_issued == t.2
                            &&& final(self).reserve_a == old(self).reserve_a + t.0
                            &&& final(self).reserve_b == old(self).reserve_b + t.1
                            &&& final(self).lp_supply == old(self).lp_supply + t.2
                        } else {
                            r == Err::<DepositOutcome, ErrorCode>(ErrorCode::Overflow)
                                && *final(self) == *old(self)
                        }
                    },
                }
            }),
            r matches Err(e) ==> *final(self) == *old(self),
            old(self).inv() ==> final(self).inv(),
            r matches Ok(o) ==> final(self).reserve_a * final(self).reserve_b >= old(
                self,
            ).reserve_a * old(self).reserve_b,
    {
        let outcome = match add_liquidity(
            amount_a_desired,
            amount_b_desired,
            amount_a_min,
            amount_b_min,
            self.reserve_a,
            self.reserve_b,
            self.lp_supply,
        ) {
            Ok(o) => o,
            Err(e) => {
                return Err(e);
            },
        };
        let new_a = match self.reserve_a.checked_add(outcome.used_a) {
            Some(v) => v,
            None => {
                return Err(ErrorCode::Overflow);
            },
        };
        let new_b = match self.reserve_b.checked_add(outcome.used_b) {
            Some(v) => v,
            None => {
                return Err(ErrorCode::Overflow);
            },
        };
        let new_s = match self.lp_supply.checked_add(outcome.shares_issued) {
            Some(v) => v,
            None => {
                return Err(ErrorCode::Overflow);
            },
        };
        proof {
            if old(self).reserve_a == 0 || old(self).reserve_b == 0 {
                let n = amount_a_desired as int * amount_b_desired as int;
                let shares = crate::math::spec_isqrt(n);
                lemma_mul_strictly_positive(amount_a_desired as int, amount_b_desired as int);
                lemma_isqrt_is_floor_sqrt(n);
                assert(shares >= 1) by (nonlinear_arith)
                    requires
                        n >= 1,
                        shares >= 0,
                        n < (shares + 1) * (shares + 1),
                ;
            }
            lemma_mul_inequality(
                old(self).reserve_a as int,
                new_a as int,
                old(self).reserve_b as int,
            );
            lemma_mul_inequality(old(self).reserve_b as int, new_b as int, new_a as int);
            lemma_mul_is_commutative(old(self).reserve_b as int, new_a as int);
            lemma_mul_is_commutative(new_b as int, new_a as int);
        }
        self.reserve_a = new_a;
        self.reserve_b = new_b;
        self.lp_supply = new_s;
        Ok(outcome)
    }

    /// Withdraws liquidity: pays out each reserve in proportion to the
    /// shares burned, per [`spec_remove_liquidity`] on the current
    /// state, burning the shares and releasing both assets as one
    /// atomic step. More shares cannot be burned than exist.
    ///
    /// The supply-reserves invariant is preserved: burning every
    /// outstanding share drains the pool exactly to empty.
    pub fn withdraw(
        &mut self,
        lp_amount: u64,
        amount_a_min: u64,
        amount_b_min: u64,
    ) -> (r: Result<WithdrawOutcome, ErrorCode>)
        requires
            lp_amount <= old(self).lp_supply,
        ensures
            ({
                let m = spec_remove_liquidity(
                    lp_amount as int,
                    amount_a_min as int,
                    amount_b_min as int,
                    old(self).reserve_a as int,
                    old(self).reserve_b as int,
                    old(self).lp_supply as int,
                );
                match m {
                    Err(e) => r == Err::<WithdrawOutcome, ErrorCode>(e)
                        && *final(self) == *old(self),
                    Ok(t) => {
                        &&& r matches Ok(o)
                        &&& o.amount_a == t.0
                        &&& o.amount_b == t.1
                        &&& final(self).reserve_a == old(self).reserve_a - t.0
                        &&& final(self).reserve_b == old(self).reserve_b - t.1
                        &&& final(self).lp_supply == old(self).lp_supply - lp_amount
                    },
                }
            }),
            r matches Err(e) ==> *final(self) == *old(self),
            old(self).inv() ==> final(self).inv(),
    {
        let outcome = match remove_liquidity(
            lp_amount,
            amount_a_min,
            amount_b_min,
            self.reserve_a,
            self.reserve_b,
            self.lp_supply,
        ) {
            Ok(o) => o,
            Err(e) => {
                return Err(e);
            },
        };
        proof {
            let ra = self.reserve_a as int;
            let rb = self.reserve_b as int;
            let s = self.lp_supply as int;
            let lp = lp_amount as int;
            lemma_mul_is_commutative(ra, lp);
            lemma_mul_is_commutative(rb, lp);
            lemma_mul_is_commutative(ra, s);
            lemma_mul_is_commutative(rb, s);
            if lp == s {
                lemma_div_multiples_vanish(ra, s);
                lemma_div_multiples_vanish(rb, s);
            } else {
                assert(ra * lp < s * ra) by (nonlinear_arith)
                    requires
                        lp < s,
                        ra > 0,
                ;
                assert(rb * lp < s * rb) by (nonlinear_arith)
                    requires
                        lp < s,
                        rb > 0,
                ;
                lemma_multiply_divide_lt(ra * lp, s, ra);
                lemma_multiply_divide_lt(rb * lp, s, rb);
            }
        }
        self.reserve_a = self.reserve_a - outcome.amount_a;
        self.reserve_b = self.reserve_b - outcome.amount_b;
        self.lp_supply = self.lp_supply - lp_amount;
        Ok(outcome)
    }

    /// Swaps against the pool: the input amount enters one vault, the
    /// constant-product output per [`spec_swap`] leaves the other, as
    /// one atomic step. The share supply is untouched.
    ///
    /// A successful swap never drains the output vault and never
    /// decreases the reserve product — the fee's retention is what
    /// accrues value to the outstanding shares.
    pub fn swap(
        &mut self,
        pool: &Pool,
        direction: SwapDirection,
        amount_in: u64,
        min_amount_out: u64,
    ) -> (r: Result<u64, ErrorCode>)
        ensures
            ({
                let r_in = if direction == SwapDirection::AToB {
                    old(self).reserve_a
                } else {
                    old(self).reserve_b
                };
                let r_out = if direction == SwapDirection::AToB {
                    old(self).reserve_b
                } else {
                    old(self).reserve_a
                };
                let new_in = if direction == SwapDirection::AToB {
                    final(self).reserve_a
                } else {
                    final(self).reserve_b
                };
                let new_out = if direction == SwapDirection::AToB {
                    final(self).reserve_b
                } else {
                    final(self).reserve_a
                };
                let m = spec_swap(
                    amount_in as int,
                    min_amount_out as int,
                    r_in as int,
                    r_out as int,
                    pool.fee_bp as int,
                );
                match m {
                    Err(e) => r == Err::<u64, ErrorCode>(e) && *final(self) == *old(self),
                    Ok(out) => {
                        if r_in + amount_in <= u64::MAX {
                            &&& r matches Ok(o)
                            &&& o == out
                            &&& new_in == r_in + amount_in
                            &&& new_out == r_out - out
                            &&& final(self).lp_supply == old(self).lp_supply
                        } else {
                            r == Err::<u64, ErrorCode>(ErrorCode::Overflow)
                                && *final(self) == *old(self)
                        }
                    },
                }
            }),
            r matches Err(e) ==> *final(self) == *old(self),
            old(self).inv() ==> final(self).inv(),
            r matches Ok(o) ==> final(self).reserve_a * final(self).reserve_b >= old(
                self,
            ).reserve_a * old(self).reserve_b,
    {
        let (r_in, r_out) = match direction {
            SwapDirection::AToB => (self.reserve_a, self.reserve_b),
            SwapDirection::BToA => (self.reserve_b, self.reserve_a),
        };
        let amount_out = match crate::swap::swap(
            amount_in,
            min_amount_out,
            r_in,
            r_out,
            pool.fee_bp,
        ) {
            Ok(o) => o,
            Err(e) => {
                return Err(e);
            },
        };
        let new_in = match r_in.checked_add(amount_in) {
            Some(v) => v,
            None => {
                return Err(ErrorCode::Overflow);
            },
        };
        let new_out = r_out - amount_out;
        proof {
            lemma_mul_is_commutative(new_out as int, new_in as int);
            lemma_mul_is_commutative(r_out as int, r_in as int);
        }
        match direction {
            SwapDirection::AToB => {
                self.reserve_a = new_in;
                self.reserve_b = new_out;
            },
            SwapDirection::BToA => {
                self.reserve_b = new_in;
                self.reserve_a = new_out;
            },
        }
        Ok(amount_out)
    }
}

/// Reading the reserves is idempotent: any two reads of the same state,
/// with no operation in between, see the same pair of balances, because
/// the read's contract pins its result to the stored fields.
pub proof fn lemma_reserves_read_idempotent(
    ledger: PoolLedger,
    first: (u64, u64),
    second: (u64, u64),
)
    requires
        first.0 == ledger.reserve_a && first.1 == ledger.reserve_b,
        second.0 == ledger.reserve_a && second.1 == ledger.reserve_b,
    ensures
        first == second,
{
}

} // verus!
