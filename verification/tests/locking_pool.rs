use stable_protocol::ids::AccountId;
use stable_protocol::locking_pool::{
    validate, ContractErrors, CoreAddresses, CoreDataKeys, Deposit, LockingPoolContract, Pool,
    MIN_DISTRIBUTION,
};

const LOCK_PERIOD: u64 = 3600 * 24 * 7;
const MIN_DEPOSIT: u128 = 100_0000000;

const STAKING_ASSET: AccountId = AccountId(1);
const REWARDS_ASSET: AccountId = AccountId(2);
const ADMIN: AccountId = AccountId(3);
const MANAGER: AccountId = AccountId(4);

fn new_pool() -> Pool {
    LockingPoolContract::set_pool(None, STAKING_ASSET, LOCK_PERIOD, MIN_DEPOSIT)
}

fn active_pool() -> Pool {
    LockingPoolContract::toggle_pool(Some(new_pool()), true).unwrap()
}

/// Deposits `MIN_DEPOSIT` for each of `n` depositors at time `now`.
fn deposit_many(mut pool: Pool, n: usize, now: u64) -> (Pool, Vec<Deposit>) {
    let mut deposits = Vec::new();
    for _ in 0..n {
        let (p, d) = LockingPoolContract::deposit(Some(pool), None, MIN_DEPOSIT, now).unwrap();
        pool = p;
        deposits.push(d);
    }
    (pool, deposits)
}

#[test]
fn test_init_contract() {
    let started = LockingPoolContract::init(false, ADMIN, MANAGER, REWARDS_ASSET).unwrap();
    assert_eq!(started.rewards_asset, REWARDS_ASSET);
    assert_eq!(started.admin, ADMIN);
    assert_eq!(started.manager, MANAGER);
    assert_eq!(
        LockingPoolContract::init(true, ADMIN, MANAGER, REWARDS_ASSET),
        Err(ContractErrors::AlreadyStarted)
    );
}

#[test]
fn test_core_updates_validations() {
    let new_admin = AccountId(30);
    let new_manager = AccountId(40);

    let (stored, must_sign) = LockingPoolContract::set_admin(Some(ADMIN), new_admin);
    assert_eq!(stored, new_admin);
    assert_eq!(must_sign, Some(ADMIN));

    let (stored, must_sign) = LockingPoolContract::set_manager(Some(MANAGER), new_manager);
    assert_eq!(stored, new_manager);
    assert_eq!(must_sign, Some(MANAGER));

    let (stored, must_sign) = LockingPoolContract::set_admin(None, new_admin);
    assert_eq!(stored, new_admin);
    assert_eq!(must_sign, None);
}

#[test]
fn test_setting_a_pool() {
    let pool = new_pool();
    assert_eq!(pool.asset, STAKING_ASSET);
    assert_eq!(pool.lock_period, LOCK_PERIOD);
    assert_eq!(pool.min_deposit, MIN_DEPOSIT);
    assert_eq!(pool.active, false);
    assert_eq!(pool.balance, 0);
    assert_eq!(pool.deposits, 0);
    assert_eq!(pool.factor, 0);

    let pool = LockingPoolContract::set_pool(
        Some(pool),
        STAKING_ASSET,
        LOCK_PERIOD + 1,
        MIN_DEPOSIT + 1,
    );
    assert_eq!(pool.asset, STAKING_ASSET);
    assert_eq!(pool.lock_period, LOCK_PERIOD + 1);
    assert_eq!(pool.min_deposit, MIN_DEPOSIT + 1);
    assert_eq!(pool.active, false);
    assert_eq!(pool.balance, 0);
    assert_eq!(pool.deposits, 0);
    assert_eq!(pool.factor, 0);
}

#[test]
fn test_toggling_pool() {
    assert_eq!(
        LockingPoolContract::toggle_pool(None, false),
        Err(ContractErrors::PoolDoesntExist)
    );
    let pool = LockingPoolContract::toggle_pool(Some(new_pool()), true).unwrap();
    assert_eq!(pool.active, true);
}

#[test]
fn test_remove_pool() {
    assert_eq!(
        LockingPoolContract::remove_pool(None),
        Err(ContractErrors::PoolDoesntExist)
    );
    let (pool, deposits) = deposit_many(active_pool(), 1, 0);
    assert_eq!(
        LockingPoolContract::remove_pool(Some(pool)),
        Err(ContractErrors::PoolCanNotBeDeleted)
    );
    let w = LockingPoolContract::withdraw(Some(pool), Some(deposits[0]), LOCK_PERIOD * 2).unwrap();
    assert_eq!(LockingPoolContract::remove_pool(Some(w.pool)), Ok(()));
}

#[test]
fn test_cloning_a_pool() {
    let new_asset = AccountId(77);
    assert_eq!(
        LockingPoolContract::clone_pool(None, new_asset),
        Err(ContractErrors::PoolDoesntExist)
    );
    let old_pool = new_pool();
    let cloned = LockingPoolContract::clone_pool(Some(old_pool), new_asset).unwrap();
    assert_eq!(cloned.asset, new_asset);
    assert_eq!(old_pool.active, cloned.active);
    assert_eq!(old_pool.balance, cloned.balance);
    assert_eq!(old_pool.deposits, cloned.deposits);
    assert_eq!(old_pool.factor, cloned.factor);
    assert_eq!(old_pool.lock_period, cloned.lock_period);
    assert_eq!(old_pool.min_deposit, cloned.min_deposit);
}

#[test]
fn test_migrating_deposits() {
    let (pool, deposits) = deposit_many(active_pool(), 20, 0);
    let new_asset = AccountId(77);
    let cloned = LockingPoolContract::clone_pool(Some(pool), new_asset).unwrap();
    assert_eq!(cloned.active, false);
    assert_eq!(cloned.deposits, 20);

    let stored: Vec<Option<Deposit>> = deposits.iter().map(|d| Some(*d)).collect();
    let moved = LockingPoolContract::migrate_deposits(Some(pool), Some(cloned), &stored).unwrap();
    assert_eq!(moved.len(), 20);
    for (i, d) in moved.iter().enumerate() {
        assert_eq!(*d, deposits[i]);
    }

    assert_eq!(
        LockingPoolContract::migrate_deposits(Some(pool), None, &stored),
        Err(ContractErrors::PoolDoesntExist)
    );
    assert_eq!(
        LockingPoolContract::migrate_deposits(None, Some(cloned), &stored),
        Err(ContractErrors::PoolDoesntExist)
    );
    let mut missing = stored.clone();
    missing[7] = None;
    assert_eq!(
        LockingPoolContract::migrate_deposits(Some(pool), Some(cloned), &missing),
        Err(ContractErrors::DepositDoesntExist)
    );
}

#[test]
fn test_a_deposit() {
    let inactive = new_pool();
    assert_eq!(
        LockingPoolContract::deposit(Some(inactive), None, 1, 0),
        Err(ContractErrors::PoolDoesntAcceptDeposits)
    );
    assert_eq!(
        LockingPoolContract::deposit(None, None, MIN_DEPOSIT, 0),
        Err(ContractErrors::PoolDoesntExist)
    );

    let pool = active_pool();
    assert_eq!(
        LockingPoolContract::deposit(Some(pool), None, 1, 0),
        Err(ContractErrors::InvalidDepositAmount)
    );
    assert!(LockingPoolContract::deposit(Some(pool), None, MIN_DEPOSIT * 3, 0).is_ok());

    let (pool, deposit) = LockingPoolContract::deposit(Some(pool), None, MIN_DEPOSIT, 0).unwrap();
    assert_eq!(deposit.amount, MIN_DEPOSIT);
    assert_eq!(deposit.unlocks_at, LOCK_PERIOD);
    assert_eq!(deposit.snapshot, 0);
    assert_eq!(pool.factor, 0);
    assert_eq!(pool.balance, deposit.amount);
    assert_eq!(pool.deposits, 1);

    assert_eq!(
        LockingPoolContract::deposit(Some(pool), Some(deposit), MIN_DEPOSIT, 0),
        Err(ContractErrors::DepositAlreadyExists)
    );
}

#[test]
fn test_multiple_deposits() {
    let (pool, _) = deposit_many(active_pool(), 4, 0);
    assert_eq!(pool.deposits, 4);
    assert_eq!(pool.balance, 4 * MIN_DEPOSIT);
    assert_eq!(pool.factor, 0);
}

#[test]
fn test_withdraws() {
    let (mut pool, deposits) = deposit_many(active_pool(), 4, 0);

    assert_eq!(
        LockingPoolContract::withdraw(Some(pool), Some(deposits[3]), 0),
        Err(ContractErrors::DepositIsStillLocked)
    );

    let now = LOCK_PERIOD * 2;
    let w = LockingPoolContract::withdraw(Some(pool), Some(deposits[3]), now).unwrap();
    assert_eq!(w.amount, MIN_DEPOSIT);
    assert_eq!(w.reward, 0);
    pool = w.pool;

    assert_eq!(
        LockingPoolContract::withdraw(Some(pool), None, now),
        Err(ContractErrors::DepositDoesntExist)
    );

    for i in (0..3).rev() {
        pool = LockingPoolContract::withdraw(Some(pool), Some(deposits[i]), now)
            .unwrap()
            .pool;
    }
    assert_eq!(pool.factor, 0);
    assert_eq!(pool.balance, 0);
    assert_eq!(pool.deposits, 0);
}

#[test]
fn test_distribute_and_withdraw() {
    let pool = active_pool();
    assert_eq!(
        LockingPoolContract::distribute(Some(pool), MIN_DEPOSIT),
        Err(ContractErrors::CantDistributeReward)
    );

    let (pool, deposits) = deposit_many(pool, 1, 0);
    let pool = LockingPoolContract::distribute(Some(pool), MIN_DEPOSIT).unwrap();
    assert_eq!(pool.factor, (MIN_DEPOSIT * 1_0000000) / pool.balance);

    let w = LockingPoolContract::withdraw(Some(pool), Some(deposits[0]), LOCK_PERIOD * 3).unwrap();
    assert_eq!(w.pool.factor, 0);
    assert_eq!(w.reward, MIN_DEPOSIT);
    assert_eq!(w.amount, MIN_DEPOSIT);
}

#[test]
fn distribution_limits() {
    let (pool, _) = deposit_many(active_pool(), 1, 0);
    assert_eq!(
        LockingPoolContract::distribute(Some(pool), MIN_DISTRIBUTION - 1),
        Err(ContractErrors::CantDistributeReward)
    );
    assert_eq!(
        LockingPoolContract::distribute(None, MIN_DISTRIBUTION),
        Err(ContractErrors::PoolDoesntExist)
    );
    assert!(LockingPoolContract::distribute(Some(pool), MIN_DISTRIBUTION).is_ok());
}

#[test]
fn rewards_are_shared_by_amount() {
    let pool = active_pool();
    let (pool, a) = LockingPoolContract::deposit(Some(pool), None, 3 * MIN_DEPOSIT, 0).unwrap();
    let (pool, b) = LockingPoolContract::deposit(Some(pool), None, MIN_DEPOSIT, 0).unwrap();
    let pool = LockingPoolContract::distribute(Some(pool), 4 * MIN_DEPOSIT).unwrap();
    assert_eq!(pool.factor, 1_0000000);

    let wa = LockingPoolContract::withdraw(Some(pool), Some(a), LOCK_PERIOD).unwrap();
    assert_eq!(wa.reward, 3 * MIN_DEPOSIT);
    // A deposit made after the distribution earns nothing from it.
    let (pool2, c) = LockingPoolContract::deposit(Some(wa.pool), None, MIN_DEPOSIT, 10).unwrap();
    let wc = LockingPoolContract::withdraw(Some(pool2), Some(c), LOCK_PERIOD + 10).unwrap();
    assert_eq!(wc.reward, 0);
    let wb = LockingPoolContract::withdraw(Some(wc.pool), Some(b), LOCK_PERIOD).unwrap();
    assert_eq!(wb.reward, MIN_DEPOSIT);
    assert_eq!(wb.pool.factor, 0);
}

#[test]
fn deposit_then_withdraw_restores_the_pool() {
    let (pool, _) = deposit_many(active_pool(), 2, 0);
    let pool = LockingPoolContract::distribute(Some(pool), MIN_DISTRIBUTION * 2).unwrap();
    let (after, d) = LockingPoolContract::deposit(Some(pool), None, MIN_DEPOSIT * 5, 100).unwrap();
    let w = LockingPoolContract::withdraw(Some(after), Some(d), 100 + LOCK_PERIOD).unwrap();
    assert_eq!(w.pool, pool);
    assert_eq!(w.reward, 0);
    assert_eq!(w.amount, MIN_DEPOSIT * 5);
}

#[test]
fn validate_names_the_authority() {
    assert_eq!(validate(CoreDataKeys::Admin, Some(ADMIN), Some(MANAGER)), Ok(ADMIN));
    assert_eq!(validate(CoreDataKeys::Manager, Some(ADMIN), Some(MANAGER)), Ok(MANAGER));
    assert_eq!(
        validate(CoreDataKeys::Manager, Some(ADMIN), None),
        Err(ContractErrors::NotStarted)
    );
    assert_eq!(
        validate(CoreDataKeys::RewardsAsset, Some(ADMIN), Some(MANAGER)),
        Err(ContractErrors::NotStarted)
    );
    let addresses = CoreAddresses { admin: ADMIN, manager: MANAGER, rewards_asset: REWARDS_ASSET };
    assert_eq!(addresses.admin, ADMIN);
}

#[test]
fn error_codes() {
    assert_eq!(ContractErrors::NotStarted.code(), 0);
    assert_eq!(ContractErrors::PoolDoesntExist.code(), 1);
    assert_eq!(ContractErrors::PoolDoesntAcceptDeposits.code(), 11);
}

#[test]
fn distribution_never_overpays() {
    let pool = active_pool();
    let (pool, a) = LockingPoolContract::deposit(Some(pool), None, 1_000_000_000, 0).unwrap();
    let (pool, b) = LockingPoolContract::deposit(Some(pool), None, 2_000_000_000, 0).unwrap();
    let (pool, c) = LockingPoolContract::deposit(Some(pool), None, 4_000_000_000, 0).unwrap();
    let pool = LockingPoolContract::distribute(Some(pool), 1_000_000_000).unwrap();
    assert_eq!(pool.factor, 1428571);
    let wa = LockingPoolContract::withdraw(Some(pool), Some(a), LOCK_PERIOD).unwrap();
    let wb = LockingPoolContract::withdraw(Some(wa.pool), Some(b), LOCK_PERIOD).unwrap();
    let wc = LockingPoolContract::withdraw(Some(wb.pool), Some(c), LOCK_PERIOD).unwrap();
    assert_eq!((wa.reward, wb.reward, wc.reward), (142857100, 285714200, 571428400));
    assert!(wa.reward + wb.reward + wc.reward <= 1_000_000_000);
    assert_eq!(wc.pool.factor, 0);
}
