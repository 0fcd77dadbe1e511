//! Verified decision logic of a family of Soroban DeFi contracts: a governance
//! DAO, a locking pool, a safety (liquidation) pool, a collateralised-vault
//! engine and a stable liquidity pool.
//!
//! Each contract entry point is written here as a function from the values the
//! contract reads out of its storage (and the ledger) to the values it writes
//! back, the token movements it performs and the error it raises. Reading and
//! writing ledger storage, authorisation and token transfers are the host's
//! business and stay with the caller.
use vstd::prelude::*;

pub mod ids;
pub mod math;
pub mod governance;
pub mod locking_pool;
pub mod vaults;
pub mod safety_pool;
pub mod factor_safety_pool;
pub mod stable_liquidity_pool;

verus! {
} // verus!
