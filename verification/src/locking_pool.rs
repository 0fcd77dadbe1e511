//! The locking pool: deposits of an asset are locked for a period, and
//! rewards distributed to a pool are shared among its deposits in proportion
//! to their amounts through a cumulative reward factor.
use vstd::prelude::*;
use crate::ids::AccountId;
use crate::math::SCALE;

verus! {

/// Errors raised by the locking pool.
#[derive(Clone, Copy, Debug, PartialEq, Eq, Structural)]
pub enum ContractErrors {
    NotStarted,
    PoolDoesntExist,
    InvalidDepositAmount,
    DepositAlreadyExists,
    FundsDepositFailed,
    DepositDoesntExist,
    DepositIsStillLocked,
    RewardsWithdrawFailed,
    FundsWithdrawFailed,
    CantDistributeReward,
    RewardsDepositFailed,
    PoolDoesntAcceptDeposits,
    AlreadyStarted,
    PoolCanNotBeDeleted,
}

impl ContractErrors {
    /// The contract error number the host reports for this error.
    pub open spec fn error_code(self) -> u32 {
        match self {
            ContractErrors::NotStarted => 0,
            ContractErrors::PoolDoesntExist => 1,
            ContractErrors::InvalidDepositAmount => 2,
            ContractErrors::DepositAlreadyExists => 3,
            ContractErrors::FundsDepositFailed => 4,
            ContractErrors::DepositDoesntExist => 5,
            ContractErrors::DepositIsStillLocked => 6,
            ContractErrors::RewardsWithdrawFailed => 7,
            ContractErrors::FundsWithdrawFailed => 8,
            ContractErrors::CantDistributeReward => 9,
            ContractErrors::RewardsDepositFailed => 10,
            ContractErrors::PoolDoesntAcceptDeposits => 11,
            ContractErrors::AlreadyStarted => 12,
            ContractErrors::PoolCanNotBeDeleted => 13,
        }
    }

    pub fn code(&self) -> (c: u32)
        ensures
            c == self.error_code(),
    {
        match self {
            ContractErrors::NotStarted => 0,
            ContractErrors::PoolDoesntExist => 1,
            ContractErrors::InvalidDepositAmount => 2,
            ContractErrors::DepositAlreadyExists => 3,
            ContractErrors::FundsDepositFailed => 4,
            ContractErrors::DepositDoesntExist => 5,
            ContractErrors::DepositIsStillLocked => 6,
            ContractErrors::RewardsWithdrawFailed => 7,
            ContractErrors::FundsWithdrawFailed => 8,
            ContractErrors::CantDistributeReward => 9,
            ContractErrors::RewardsDepositFailed => 10,
            ContractErrors::PoolDoesntAcceptDeposits => 11,
            ContractErrors::AlreadyStarted => 12,
            ContractErrors::PoolCanNotBeDeleted => 13,
        }
    }
}

/// The keys of the contract's configured addresses.
#[derive(Clone, Copy, Debug, PartialEq, Eq, Structural)]
pub enum CoreDataKeys {
    Admin,
    Manager,
    RewardsAsset,
}

/// A pool of deposits of one asset.
#[derive(Clone, Copy, Debug, PartialEq, Eq, Structural)]
pub struct Pool {
    pub active: bool,
    pub asset: AccountId,
    pub balance: u128,
    pub deposits: u64,
    /// Cumulative rewards per deposited unit, scaled by `SCALE`.
    pub factor: u128,
    pub lock_period: u64,
    pub min_deposit: u128,
}

#[derive(Clone, Copy, Debug, PartialEq, Eq, Structural)]
pub enum PoolDataKeys {
    Pool(AccountId),
}

/// The contract's configured addresses.
#[derive(Clone, Copy, Debug, PartialEq, Eq, Structural)]
pub struct CoreAddresses {
    pub admin: AccountId,
    pub manager: AccountId,
    pub rewards_asset: AccountId,
}

/// A depositor's locked deposit in a pool.
#[derive(Clone, Copy, Debug, PartialEq, Eq, Structural)]
pub struct Deposit {
    pub amount: u128,
    pub unlocks_at: u64,
    /// The pool's factor when the deposit was made.
    pub snapshot: u128,
}

/// Deposits are stored under (pool asset, depositor).
#[derive(Clone, Copy, Debug, PartialEq, Eq, Structural)]
pub enum DepositsStorageKeys {
    Deposit(AccountId, AccountId),
}

/// What a successful withdrawal writes and pays: the updated pool, the
/// reward to pay in the rewards asset and the deposit to give back.
#[derive(Clone, Copy, Debug, PartialEq, Eq, Structural)]
pub struct Withdrawal {
    pub pool: Pool,
    pub reward: u128,
    pub amount: u128,
}

/// The smallest amount that can be distributed at once.
pub const MIN_DISTRIBUTION: u128 = 1000000000;

/// The reward a deposit has earned in a pool whose factor is `factor`.
pub open spec fn reward_of(deposit: Deposit, factor: u128) -> int {
    deposit.amount * (factor - deposit.snapshot) / (SCALE as int)
}

/// The configured address an operation of kind `typ` must be authorised by:
/// the admin or the manager; the contract must have been started.
pub open spec fn authority_of(
    typ: CoreDataKeys,
    admin: Option<AccountId>,
    manager: Option<AccountId>,
) -> Option<AccountId> {
    match typ {
        CoreDataKeys::Admin => admin,
        CoreDataKeys::Manager => manager,
        CoreDataKeys::RewardsAsset => None,
    }
}

/// The address that must authorise an operation of kind `typ`.
pub fn validate(
    typ: CoreDataKeys,
    admin: Option<AccountId>,
    manager: Option<AccountId>,
) -> (r: Result<AccountId, ContractErrors>)
    ensures
        match authority_of(typ, admin, manager) {
            Some(a) => r == Ok::<AccountId, ContractErrors>(a),
            None => r == Err::<AccountId, ContractErrors>(ContractErrors::NotStarted),
        },
{
    let found: Option<AccountId> = match typ {
        CoreDataKeys::Admin => admin,
        CoreDataKeys::Manager => manager,
        CoreDataKeys::RewardsAsset => None,
    };
    match found {
        None => Err(ContractErrors::NotStarted),
        Some(v) => Ok(v),
    }
}

/// The first check that refuses a deposit, if any.
pub open spec fn deposit_error(pool: Option<Pool>, existing: Option<Deposit>, amount: u128) -> Option<
    ContractErrors,
> {
    match pool {
        None => Some(ContractErrors::PoolDoesntExist),
        Some(p) => if !p.active {
            Some(ContractErrors::PoolDoesntAcceptDeposits)
        } else if amount < p.min_deposit {
            Some(ContractErrors::InvalidDepositAmount)
        } else if existing is Some {
            Some(ContractErrors::DepositAlreadyExists)
        } else {
            None
        },
    }
}

/// The first check that refuses a withdrawal, if any.
pub open spec fn withdraw_error(pool: Option<Pool>, deposit: Option<Deposit>, now: u64) -> Option<
    ContractErrors,
> {
    match pool {
        None => Some(ContractErrors::PoolDoesntExist),
        Some(p) => match deposit {
            None => Some(ContractErrors::DepositDoesntExist),
            Some(d) => if now < d.unlocks_at {
                Some(ContractErrors::DepositIsStillLocked)
            } else {
                None
            },
        },
    }
}

/// The pool after a deposit of `amount` has left it.
pub open spec fn pool_after_withdraw(p: Pool, amount: u128) -> Pool {
    let deposits = (p.deposits - 1) as u64;
    let balance = (p.balance - amount) as u128;
    Pool {
        deposits,
        balance,
        factor: if deposits == 0 && balance == 0 {
            0
        } else {
            p.factor
        },
        ..p
    }
}

/// The pool after a deposit of `amount` has joined it.
pub open spec fn pool_after_deposit(p: Pool, amount: u128) -> Pool {
    Pool { deposits: (p.deposits + 1) as u64, balance: (p.balance + amount) as u128, ..p }
}

/// The deposit of `amount` made into `p` at time `now`.
pub open spec fn deposit_made(p: Pool, amount: u128, now: u64) -> Deposit {
    Deposit { amount, snapshot: p.factor, unlocks_at: (now + p.lock_period) as u64 }
}

/// The pool after `amount` of rewards has been distributed among its
/// deposits.
pub open spec fn pool_after_distribute(p: Pool, amount: u128) -> Pool {
    Pool { factor: (p.factor + amount * SCALE / (p.balance as int)) as u128, ..p }
}

/// The locking pool contract. Each method takes what the contract reads
/// from storage and the ledger and gives back what it writes or the error it
/// raises; authorisation and token transfers are left to the host.
pub struct LockingPoolContract;

impl LockingPoolContract {
    /// Starts the contract with its admin, manager and rewards asset;
    /// refused once an admin is stored.
    pub fn init(
        admin_stored: bool,
        admin: AccountId,
        manager: AccountId,
        reward_asset: AccountId,
    ) -> (r: Result<CoreAddresses, ContractErrors>)
        ensures
            admin_stored ==> r == Err::<CoreAddresses, ContractErrors>(ContractErrors::AlreadyStarted),
            !admin_stored ==> r == Ok::<CoreAddresses, ContractErrors>(
                CoreAddresses { admin, manager, rewards_asset: reward_asset },
            ),
    {
        if admin_stored {
            Err(ContractErrors::AlreadyStarted)
        } else {
            Ok(CoreAddresses { admin, manager, rewards_asset: reward_asset })
        }
    }

    /// Replaces the admin: the stored admin, when there is one, must
    /// authorise it. Gives back the new admin and who must authorise.
    pub fn set_admin(stored: Option<AccountId>, address: AccountId) -> (r: (AccountId, Option<AccountId>))
        ensures
            r == (address, stored),
    {
        (address, stored)
    }

    /// Replaces the manager: the stored manager, when there is one, must
    /// authorise it. Gives back the new manager and who must authorise.
    pub fn set_manager(stored: Option<AccountId>, address: AccountId) -> (r: (AccountId, Option<AccountId>))
        ensures
            r == (address, stored),
    {
        (address, stored)
    }

    /// Creates the pool of `deposit_asset`, inactive and empty, or updates
    /// the lock period and minimum deposit of the existing one.
    pub fn set_pool(
        existing: Option<Pool>,
        deposit_asset: AccountId,
        lock_period: u64,
        min_deposit: u128,
    ) -> (pool: Pool)
        ensures
            match existing {
                Some(p) => pool == Pool { lock_period, min_deposit, ..p },
                None => pool == Pool {
                    active: false,
                    asset: deposit_asset,
                    balance: 0,
                    deposits: 0,
                    factor: 0,
                    lock_period,
                    min_deposit,
                },
            },
    {
        match existing {
            Some(p) => Pool {
                active: p.active,
                asset: p.asset,
                balance: p.balance,
                deposits: p.deposits,
                factor: p.factor,
                lock_period,
                min_deposit,
            },
            None => Pool {
                active: false,
                asset: deposit_asset,
                balance: 0,
                deposits: 0,
                factor: 0,
                lock_period,
                min_deposit,
            },
        }
    }

    /// An inactive copy of an existing pool for another asset.
    pub fn clone_pool(existing: Option<Pool>, new_asset: AccountId) -> (r: Result<Pool, ContractErrors>)
        ensures
            match existing {
                Some(p) => r == Ok::<Pool, ContractErrors>(
                    Pool { active: false, asset: new_asset, ..p },
                ),
                None => r == Err::<Pool, ContractErrors>(ContractErrors::PoolDoesntExist),
            },
    {
        match existing {
            None => Err(ContractErrors::PoolDoesntExist),
            Some(p) => Ok(
                Pool {
                    active: false,
                    asset: new_asset,
                    balance: p.balance,
                    deposits: p.deposits,
                    factor: p.factor,
                    lock_period: p.lock_period,
                    min_deposit: p.min_deposit,
                },
            ),
        }
    }

    /// Opens or closes a pool to deposits.
    pub fn toggle_pool(existing: Option<Pool>, status: bool) -> (r: Result<Pool, ContractErrors>)
        ensures
            match existing {
                Some(p) => r == Ok::<Pool, ContractErrors>(Pool { active: status, ..p }),
                None => r == Err::<Pool, ContractErrors>(ContractErrors::PoolDoesntExist),
            },
    {
        match existing {
            None => Err(ContractErrors::PoolDoesntExist),
            Some(p) => {
                let mut pool = p;
                pool.active = status;
                Ok(pool)
            },
        }
    }

    /// A pool can be removed only when it holds no deposits.
    pub fn remove_pool(existing: Option<Pool>) -> (r: Result<(), ContractErrors>)
        ensures
            match existing {
                None => r == Err::<(), ContractErrors>(ContractErrors::PoolDoesntExist),
                Some(p) => if p.deposits > 0 {
                    r == Err::<(), ContractErrors>(ContractErrors::PoolCanNotBeDeleted)
                } else {
                    r is Ok
                },
            },
    {
        match existing {
            None => Err(ContractErrors::PoolDoesntExist),
            Some(p) => if p.deposits > 0 {
                Err(ContractErrors::PoolCanNotBeDeleted)
            } else {
                Ok(())
            },
        }
    }

    /// Moves the deposits of the listed depositors from the pool of the old
    /// asset to the pool of the new one. `old_deposits` holds, in the order
    /// of the depositors, their stored deposits in the old pool; every one
    /// must exist. The deposits to store under the new asset come back.
    pub fn migrate_deposits(
        old_pool: Option<Pool>,
        new_pool: Option<Pool>,
        old_deposits: &Vec<Option<Deposit>>,
    ) -> (r: Result<Vec<Deposit>, ContractErrors>)
        ensures
            old_pool is None ==> (r matches Err(e) && e == ContractErrors::PoolDoesntExist),
            old_pool is Some && new_pool is None ==> (r matches Err(e) && e
                == ContractErrors::PoolDoesntExist),
            old_pool is Some && new_pool is Some ==> {
                if exists|i: int| 0 <= i < old_deposits@.len() && (#[trigger] old_deposits@[i]) is None {
                    r matches Err(e) && e == ContractErrors::DepositDoesntExist
                } else {
                    r matches Ok(moved) && moved@.len() == old_deposits@.len() && forall|i: int|
                        0 <= i < old_deposits@.len() ==> old_deposits@[i] == Some(
                            #[trigger] moved@[i],
                        )
                }
            },
    {
        if old_pool.is_none() || new_pool.is_none() {
            return Err(ContractErrors::PoolDoesntExist);
        }
        let mut moved: Vec<Deposit> = Vec::new();
        let mut i: usize = 0;
        while i < old_deposits.len()
            invariant
                i <= old_deposits.len(),
                moved@.len() == i,
                old_pool is Some && new_pool is Some,
                forall|j: int| 0 <= j < i ==> old_deposits@[j] == Some(#[trigger] moved@[j]),
            decreases old_deposits.len() - i,
        {
            match old_deposits[i] {
                None => {
                    assert(old_deposits@[i as int] is None);
                    return Err(ContractErrors::DepositDoesntExist);
                },
                Some(d) => {
                    moved.push(d);
                },
            }
            i = i + 1;
        }
        assert forall|j: int| 0 <= j < old_deposits@.len() implies !(old_deposits@[j] is None) by {
            assert(old_deposits@[j] == Some(moved@[j]));
        }
        Ok(moved)
    }

    /// Locks `amount` of the pool's asset. On success the depositor's funds
    /// are to be transferred to the contract (a failed transfer raises
    /// `FundsDepositFailed`), then the pool and the deposit saved.
    pub fn deposit(
        pool: Option<Pool>,
        existing: Option<Deposit>,
        amount: u128,
        now: u64,
    ) -> (r: Result<(Pool, Deposit), ContractErrors>)
        requires
            deposit_error(pool, existing, amount) is None ==> {
                let p = pool->0;
                &&& p.deposits + 1 <= u64::MAX
                &&& p.balance + amount <= u128::MAX
                &&& now + p.lock_period <= u64::MAX
            },
        ensures
            match deposit_error(pool, existing, amount) {
                Some(e) => r == Err::<(Pool, Deposit), ContractErrors>(e),
                None => {
                    let p = pool->0;
                    r == Ok::<(Pool, Deposit), ContractErrors>(
                        (pool_after_deposit(p, amount), deposit_made(p, amount, now)),
                    )
                },
            },
    {
        let mut pool: Pool = match pool {
            None => {
                return Err(ContractErrors::PoolDoesntExist);
            },
            Some(p) => p,
        };
        if !pool.active {
            return Err(ContractErrors::PoolDoesntAcceptDeposits);
        }
        if amount < pool.min_deposit {
            return Err(ContractErrors::InvalidDepositAmount);
        }
        if existing.is_some() {
            return Err(ContractErrors::DepositAlreadyExists);
        }
        pool.deposits = pool.deposits + 1;
        pool.balance = pool.balance + amount;
        let deposit = Deposit { amount, snapshot: pool.factor, unlocks_at: now + pool.lock_period };
        Ok((pool, deposit))
    }

    /// Unlocks a deposit once its lock period is over. On success the
    /// reward (when positive) is to be paid in the rewards asset and the
    /// deposit given back (failed transfers raise `RewardsWithdrawFailed` and
    /// `FundsWithdrawFailed`), the deposit removed and the pool saved. A pool
    /// left without deposits and balance has its factor reset.
    pub fn withdraw(pool: Option<Pool>, deposit: Option<Deposit>, now: u64) -> (r: Result<
        Withdrawal,
        ContractErrors,
    >)
        requires
            withdraw_error(pool, deposit, now) is None ==> {
                let p = pool->0;
                let d = deposit->0;
                &&& d.snapshot <= p.factor
                &&& d.amount * (p.factor - d.snapshot) <= u128::MAX
                &&& p.deposits >= 1
                &&& p.balance >= d.amount
            },
        ensures
            match withdraw_error(pool, deposit, now) {
                Some(e) => r == Err::<Withdrawal, ContractErrors>(e),
                None => {
                    let p = pool->0;
                    let d = deposit->0;
                    r == Ok::<Withdrawal, ContractErrors>(
                        Withdrawal {
                            pool: pool_after_withdraw(p, d.amount),
                            reward: reward_of(d, p.factor) as u128,
                            amount: d.amount,
                        },
                    )
                },
            },
    {
        let mut pool: Pool = match pool {
            None => {
                return Err(ContractErrors::PoolDoesntExist);
            },
            Some(p) => p,
        };
        let deposit: Deposit = match deposit {
            None => {
                return Err(ContractErrors::DepositDoesntExist);
            },
            Some(d) => d,
        };
        if now < deposit.unlocks_at {
            return Err(ContractErrors::DepositIsStillLocked);
        }
        let reward: u128 = (deposit.amount * (pool.factor - deposit.snapshot)) / SCALE;
        pool.deposits = pool.deposits - 1;
        pool.balance = pool.balance - deposit.amount;
        if pool.deposits == 0 && pool.balance == 0 {
            pool.factor = 0;
        }
        Ok(Withdrawal { pool, reward, amount: deposit.amount })
    }

    /// Distributes `amount` of the rewards asset among the deposits of a
    /// pool. On success the amount is to be transferred to the contract (a
    /// failed transfer raises `RewardsDepositFailed`) and the pool saved.
    pub fn distribute(pool: Option<Pool>, amount: u128) -> (r: Result<Pool, ContractErrors>)
        requires
            amount >= MIN_DISTRIBUTION && pool is Some && pool->0.balance != 0 ==> {
                let p = pool->0;
                &&& amount * SCALE <= u128::MAX
                &&& p.factor + amount * SCALE / (p.balance as int) <= u128::MAX
            },
        ensures
            amount < MIN_DISTRIBUTION ==> r == Err::<Pool, ContractErrors>(
                ContractErrors::CantDistributeReward,
            ),
            amount >= MIN_DISTRIBUTION ==> match pool {
                None => r == Err::<Pool, ContractErrors>(ContractErrors::PoolDoesntExist),
                Some(p) => if p.balance == 0 {
                    r == Err::<Pool, ContractErrors>(ContractErrors::CantDistributeReward)
                } else {
                    r == Ok::<Pool, ContractErrors>(pool_after_distribute(p, amount))
                },
            },
    {
        if amount < MIN_DISTRIBUTION {
            return Err(ContractErrors::CantDistributeReward);
        }
        let mut pool: Pool = match pool {
            None => {
                return Err(ContractErrors::PoolDoesntExist);
            },
            Some(p) => p,
        };
        if pool.balance == 0 {
            return Err(ContractErrors::CantDistributeReward);
        }
        pool.factor = pool.factor + (amount * SCALE) / pool.balance;
        Ok(pool)
    }
}


/// A deposit withdrawn with no distribution in between leaves the pool as it
/// found it and earns nothing: the balance and the number of deposits come
/// back to their values before the deposit (the factor too, unless the pool
/// was empty, in which case it is reset to zero), and the full amount is
/// given back.
pub proof fn lemma_deposit_then_withdraw_restores_pool(p: Pool, amount: u128, now: u64)
    requires
        p.deposits + 1 <= u64::MAX,
        p.balance + amount <= u128::MAX,
        now + p.lock_period <= u64::MAX,
    ensures
        reward_of(deposit_made(p, amount, now), pool_after_deposit(p, amount).factor) == 0,
        deposit_made(p, amount, now).amount == amount,
        !(p.deposits == 0 && p.balance == 0) ==> pool_after_withdraw(
            pool_after_deposit(p, amount),
            amount,
        ) == p,
        p.deposits == 0 && p.balance == 0 ==> pool_after_withdraw(
            pool_after_deposit(p, amount),
            amount,
        ) == (Pool { factor: 0, ..p }),
{
    let p1 = pool_after_deposit(p, amount);
    let d = deposit_made(p, amount, now);
    assert(p1.factor - d.snapshot == 0);
    assert((d.amount as int) * 0 == 0);
    let p2 = pool_after_withdraw(p1, d.amount);
    assert(p2.deposits == p.deposits);
    assert(p2.balance == p.balance);
}

/// A distribution of `amount` rewards a deposit that was in the pool before
/// it at most in proportion to its share of the pool's balance, so never
/// more than `amount`.
pub proof fn lemma_reward_bounded_by_distribution(p: Pool, d: Deposit, amount: u128)
    requires
        d.snapshot == p.factor,
        d.amount <= p.balance,
        p.balance > 0,
        p.factor + amount * SCALE / (p.balance as int) <= u128::MAX,
    ensures
        reward_of(d, pool_after_distribute(p, amount).factor) * p.balance <= amount * d.amount,
        reward_of(d, pool_after_distribute(p, amount).factor) <= amount,
{
    let s: int = SCALE as int;
    let b: int = p.balance as int;
    let q: int = (amount as int) * s / b;
    let f2 = pool_after_distribute(p, amount).factor;
    assert(f2 - d.snapshot == q);
    assert(q * b <= (amount as int) * s) by (nonlinear_arith)
        requires
            q == (amount as int) * s / b,
            b > 0,
            s > 0,
            amount >= 0,
    ;
    assert(q >= 0) by (nonlinear_arith)
        requires
            q == (amount as int) * s / b,
            b > 0,
            s > 0,
            amount >= 0,
    ;
    let r: int = (d.amount as int) * q / s;
    assert(r == reward_of(d, f2));
    assert(r * b <= (amount as int) * (d.amount as int)) by (nonlinear_arith)
        requires
            r == (d.amount as int) * q / s,
            q * b <= (amount as int) * s,
            q >= 0,
            b > 0,
            s > 0,
            d.amount >= 0,
    {
        assert(r * s <= (d.amount as int) * q);
        assert(r * s * b <= (d.amount as int) * q * b);
        assert((d.amount as int) * (q * b) <= (d.amount as int) * ((amount as int) * s));
    }
    assert(r <= amount) by (nonlinear_arith)
        requires
            r * b <= (amount as int) * (d.amount as int),
            d.amount <= b,
            b > 0,
            amount >= 0,
    {
        assert((amount as int) * (d.amount as int) <= (amount as int) * b);
    }
}

/// The total amount of a list of deposits.
pub open spec fn sum_deposits(ds: Seq<Deposit>) -> int
    decreases ds.len(),
{
    if ds.len() == 0 {
        0
    } else {
        sum_deposits(ds.drop_last()) + ds.last().amount
    }
}

/// The total reward a list of deposits has earned in a pool whose factor is
/// `factor`.
pub open spec fn sum_rewards(ds: Seq<Deposit>, factor: u128) -> int
    decreases ds.len(),
{
    if ds.len() == 0 {
        0
    } else {
        sum_rewards(ds.drop_last(), factor) + reward_of(ds.last(), factor)
    }
}

proof fn lemma_rewards_scaled(ds: Seq<Deposit>, base: u128, factor: u128, q: int)
    requires
        q >= 0,
        factor == base + q,
        forall|i: int| 0 <= i < ds.len() ==> (#[trigger] ds[i]).snapshot == base,
    ensures
        sum_rewards(ds, factor) * (SCALE as int) <= sum_deposits(ds) * q,
        sum_deposits(ds) >= 0,
    decreases ds.len(),
{
    if ds.len() > 0 {
        let rest = ds.drop_last();
        assert forall|i: int| 0 <= i < rest.len() implies (#[trigger] rest[i]).snapshot == base by {
            assert(rest[i] == ds[i]);
        }
        lemma_rewards_scaled(rest, base, factor, q);
        let d = ds.last();
        assert(d == ds[ds.len() - 1]);
        let a: int = d.amount as int;
        let s: int = SCALE as int;
        let r: int = reward_of(d, factor);
        assert(r == a * q / s);
        assert(r * s <= a * q) by (nonlinear_arith)
            requires
                r == a * q / s,
                s > 0,
        ;
        let sr = sum_rewards(rest, factor);
        let sd = sum_deposits(rest);
        assert((sr + r) * s == sr * s + r * s) by (nonlinear_arith);
        assert((sd + a) * q == sd * q + a * q) by (nonlinear_arith);
    }
}

/// A distribution never owes more than it brought: for deposits that were
/// all in the pool when `amount` was distributed (their snapshots are the
/// pool's factor then) and together hold at most the pool's balance, the
/// rewards they earn from it add up to at most `amount`.
pub proof fn lemma_distribution_never_overpays(p: Pool, ds: Seq<Deposit>, amount: u128)
    requires
        p.balance > 0,
        forall|i: int| 0 <= i < ds.len() ==> (#[trigger] ds[i]).snapshot == p.factor,
        sum_deposits(ds) <= p.balance,
        p.factor + amount * SCALE / (p.balance as int) <= u128::MAX,
    ensures
        sum_rewards(ds, pool_after_distribute(p, amount).factor) <= amount,
{
    let s: int = SCALE as int;
    let b: int = p.balance as int;
    let q: int = (amount as int) * s / b;
    assert(q >= 0) by (nonlinear_arith)
        requires
            q == (amount as int) * s / b,
            b > 0,
            s > 0,
            amount >= 0,
    ;
    assert(q * b <= (amount as int) * s) by (nonlinear_arith)
        requires
            q == (amount as int) * s / b,
            b > 0,
    ;
    let f2 = pool_after_distribute(p, amount).factor;
    assert(f2 == p.factor + q);
    lemma_rewards_scaled(ds, p.factor, f2, q);
    let sr = sum_rewards(ds, f2);
    let sd = sum_deposits(ds);
    assert(sd * q <= b * q) by (nonlinear_arith)
        requires
            0 <= sd <= b,
            q >= 0,
    ;
    assert(sr <= amount) by (nonlinear_arith)
        requires
            sr * s <= sd * q,
            sd * q <= b * q,
            q * b <= (amount as int) * s,
            s > 0,
    ;
}

/// A distribution of `amount` raises the pool's factor by the amount per
/// unit of balance, scaled by `SCALE` and rounded down; a deposit's reward is
/// its amount times the factor's growth since it was made, scaled back down
/// and rounded down, so a deposit made at the current factor has earned
/// nothing.
pub proof fn lemma_rewards_follow_the_factor(p: Pool, amount: u128, d: Deposit, factor: u128)
    requires
        p.balance > 0,
        p.factor + amount * SCALE / (p.balance as int) <= u128::MAX,
        d.snapshot <= factor,
    ensures
        ({
            let growth = pool_after_distribute(p, amount).factor - p.factor;
            &&& growth * p.balance <= amount * SCALE
            &&& amount * SCALE < (growth + 1) * p.balance
        }),
        reward_of(d, factor) * (SCALE as int) <= d.amount * (factor - d.snapshot),
        d.amount * (factor - d.snapshot) < (reward_of(d, factor) + 1) * (SCALE as int),
        reward_of(d, d.snapshot) == 0,
{
    crate::math::lemma_floor_div(amount * SCALE, p.balance as int);
    crate::math::lemma_floor_div(d.amount * (factor - d.snapshot), SCALE as int);
    assert(d.amount * 0 == 0);
}

} // verus!
