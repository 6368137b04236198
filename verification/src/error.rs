use vstd::prelude::*;

verus! {

/// Failure conditions surfaced by the pool core.
///
/// Every operation either completes fully or fails with one of these codes
/// and leaves no partial state behind.
#[derive(Clone, Copy, Debug, PartialEq, Eq, Structural)]
pub enum ErrorCode {
    /// Caller is not the recorded authority for a configuration mutation.
    InvalidAuthority,
    /// The supplied protocol fee recipient is not acceptable.
    InvalidProtocolFeeRecipient,
    /// A token program does not match the owner of the mint it serves.
    InvalidTokenProgram,
    /// Asset identifiers are not in canonical order (A must sort above B).
    InvalidTokenOrder,
    /// A required amount was zero.
    MustBeGreaterThanZero,
    /// An amount is outside its allowed range.
    InvalidAmount,
    /// Amount of asset A is below the caller's stated minimum.
    InsufficientAAmount,
    /// Amount of asset B is below the caller's stated minimum.
    InsufficientBAmount,
    /// An arithmetic step overflowed.
    Overflow,
    /// An arithmetic step underflowed.
    Underflow,
    /// The swap output would fully drain the pool's output vault.
    InsufficientLiquidity,
    /// The swap output is below the caller's stated minimum.
    InsufficientOutputAmount,
    /// The pool holds no liquidity to trade against or redeem.
    EmptyPool,
}

} // verus!
