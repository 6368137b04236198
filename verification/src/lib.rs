//! Accounting core of a two-asset constant-product liquidity pool.
//!
//! The library computes — and proves correct — the pure arithmetic of an
//! automated market maker: proportional share issuance on deposit,
//! entitlement on withdrawal, and fee-adjusted constant-product swaps.
//! Asset custody, account validation and signatures are a concern of the
//! surrounding ledger and are represented here only by the in-memory
//! [`pool::PoolLedger`] state that the operations read and update.

pub mod config;
pub mod error;
pub mod fees;
pub mod liquidity;
pub mod math;
pub mod pool;
pub mod swap;
