//! The stable liquidity pool's configuration, locking state and errors.
use vstd::prelude::*;
use crate::ids::AccountId;

verus! {

/// Errors raised by the stable liquidity pool.
#[derive(Clone, Copy, Debug, PartialEq, Eq, Structural)]
pub enum SCErrors {
    ContractAlreadyInitiated,
    InvalidFee,
    InvalidAsset,
    MissingDeposit,
    InvalidDepositAmount,
    NothingToWithdraw,
    LockedPeriodUncompleted,
    NotEnoughSharesToWithdraw,
    InvalidWithdraw,
    AlreadyLocked,
    LockedDeposit,
    CantDistribute,
    NotLockedDeposit,
}

impl SCErrors {
    /// The contract error number the host reports for this error.
    pub open spec fn error_code(self) -> u32 {
        match self {
            SCErrors::ContractAlreadyInitiated => 11,
            SCErrors::InvalidFee => 12,
            SCErrors::InvalidAsset => 21,
            SCErrors::MissingDeposit => 22,
            SCErrors::InvalidDepositAmount => 23,
            SCErrors::NothingToWithdraw => 31,
            SCErrors::LockedPeriodUncompleted => 32,
            SCErrors::NotEnoughSharesToWithdraw => 33,
            SCErrors::InvalidWithdraw => 34,
            SCErrors::AlreadyLocked => 41,
            SCErrors::LockedDeposit => 42,
            SCErrors::CantDistribute => 43,
            SCErrors::NotLockedDeposit => 44,
        }
    }

    pub fn code(&self) -> (c: u32)
        ensures
            c == self.error_code(),
    {
        match self {
            SCErrors::ContractAlreadyInitiated => 11,
            SCErrors::InvalidFee => 12,
            SCErrors::InvalidAsset => 21,
            SCErrors::MissingDeposit => 22,
            SCErrors::InvalidDepositAmount => 23,
            SCErrors::NothingToWithdraw => 31,
            SCErrors::LockedPeriodUncompleted => 32,
            SCErrors::NotEnoughSharesToWithdraw => 33,
            SCErrors::InvalidWithdraw => 34,
            SCErrors::AlreadyLocked => 41,
            SCErrors::LockedDeposit => 42,
            SCErrors::CantDistribute => 43,
            SCErrors::NotLockedDeposit => 44,
        }
    }
}

/// The pool's configuration and totals.
#[derive(Clone, Debug)]
pub struct CoreState {
    pub admin: AccountId,
    pub manager: AccountId,
    pub governance_token: AccountId,
    pub accepted_assets: Vec<AccountId>,
    /// The fee, scaled by 10^7 (0.3% is 30000).
    pub fee_percentage: u128,
    pub total_deposited: u128,
    pub share_price: u128,
    pub total_shares: u128,
    pub treasury: AccountId,
}

/// The shares locked for rewards.
#[derive(Clone, Copy, Debug, PartialEq, Eq, Structural)]
pub struct LockingState {
    /// The total of shares locked.
    pub total: u128,
    /// The factor used to know the rewards of each locked deposit.
    pub factor: u128,
}

#[derive(Clone, Copy, Debug, PartialEq, Eq, Structural)]
pub enum CoreStorageKeys {
    CoreState,
    LockingState,
}

} // verus!
