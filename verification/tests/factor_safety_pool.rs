use stable_protocol::factor_safety_pool::{can_settle, CoreStats, Deposit, SafetyPoolContract};
use stable_protocol::ids::{AccountId, SymbolId};
use stable_protocol::safety_pool::{self as current, CoreState, SCErrors, LOCK_PERIOD};
use stable_protocol::vaults::{OptionalVaultKey, Vault};

const USD: SymbolId = SymbolId(1);

fn config(min_deposit: u128) -> CoreState {
    current::SafetyPoolContract::init(
        false,
        AccountId(1),
        AccountId(2),
        AccountId(3),
        AccountId(4),
        AccountId(5),
        USD,
        min_deposit,
        AccountId(6),
        AccountId(7),
    )
    .unwrap()
    .0
}

fn vault(account: u64, debt: u128, collateral: u128) -> Vault {
    Vault {
        index: collateral * 1_000_000_000 / debt,
        next_key: OptionalVaultKey::Absent,
        account: AccountId(account),
        denomination: USD,
        total_debt: debt,
        total_collateral: collateral,
    }
}

#[test]
fn test_simple_liquidations_flow() {
    let core = config(100_0000000);
    let mut stats = SafetyPoolContract::init(false).unwrap();
    let mut depositors: Vec<AccountId> = Vec::new();
    let mut deposits: Vec<Deposit> = Vec::new();

    // Four depositors put in the 100 stablecoins each of their vaults' debt.
    for who in 1..=4u64 {
        let o = SafetyPoolContract::deposit(
            &core,
            stats,
            false,
            depositors.clone(),
            AccountId(who),
            100_0000000,
            0,
        )
        .unwrap();
        stats = o.stats;
        depositors = o.depositors;
        deposits.push(o.deposit);
    }

    // The two vaults of 160 debt and 3000 collateral each are liquidated at
    // the new price.
    let liquidated = vec![vault(5, 160_0000000, 3000_0000000), vault(6, 160_0000000, 3000_0000000)];
    let s = SafetyPoolContract::liquidate(&core, stats, &liquidated, 0_0586660);
    let updated: CoreStats = s.stats;

    assert_eq!(updated.lifetime_deposited, 400_0000000);
    assert_eq!(updated.current_deposited, 80_0000000);
    assert_eq!(updated.lifetime_profit, 545_3925613);
    assert_eq!(updated.lifetime_liquidated, 5727_3037194);
    assert_eq!(updated.current_liquidated, 5727_3037194);
    assert_eq!(updated.collateral_factor, 14_3182592);
    assert_eq!(s.treasury_share + 1, 272_6962808 / 2);
    assert_eq!(s.liquidator_share + 1, 272_6962808 / 2);

    // Each depositor then leaves with a fifth of its stablecoins and a
    // quarter of the collateral kept.
    let mut stats = updated;
    for d in deposits.iter() {
        let w = SafetyPoolContract::withdraw(stats, Some(*d), &depositors, d.depositor, LOCK_PERIOD)
            .unwrap();
        assert_eq!(w.stable, 20_0000000);
        assert_eq!(w.collateral, 1431_8259200);
        stats = w.stats;
        depositors = w.depositors;
    }
    assert!(depositors.is_empty());
    assert_eq!(stats.current_deposited, 0);
    assert_eq!(stats.total_shares, 0);
    assert_eq!(stats.current_liquidated, 5727_3037194 - 4 * 1431_8259200);
}

#[test]
fn factor_pool_deposit_and_withdraw_checks() {
    let core = config(100_0000000);
    let stats = SafetyPoolContract::init(false).unwrap();
    assert!(matches!(
        SafetyPoolContract::init(true),
        Err(SCErrors::ContractAlreadyInitiated)
    ));
    assert!(matches!(
        SafetyPoolContract::deposit(&core, stats, false, Vec::new(), AccountId(1), 1, 0),
        Err(SCErrors::BelowMinDeposit)
    ));
    assert!(matches!(
        SafetyPoolContract::deposit(&core, stats, true, Vec::new(), AccountId(1), 100_0000000, 0),
        Err(SCErrors::DepositAlreadyCreated)
    ));
    let o = SafetyPoolContract::deposit(&core, stats, false, Vec::new(), AccountId(1), 100_0000000, 5)
        .unwrap();
    assert_eq!(o.deposit.shares, 100_0000000);
    assert_eq!(o.deposit.last_deposit, 5);
    assert!(matches!(
        SafetyPoolContract::withdraw(o.stats, None, &o.depositors, AccountId(1), 5),
        Err(SCErrors::DepositDoesntExist)
    ));
    assert!(matches!(
        SafetyPoolContract::withdraw(o.stats, Some(o.deposit), &o.depositors, AccountId(1), 5),
        Err(SCErrors::LockedPeriodUncompleted)
    ));
    let w = SafetyPoolContract::withdraw(
        o.stats,
        Some(o.deposit),
        &o.depositors,
        AccountId(1),
        5 + LOCK_PERIOD,
    )
    .unwrap();
    assert_eq!(w.stable, 100_0000000);
    assert_eq!(w.collateral, 0);
}

#[test]
fn factor_settlement_check() {
    let core = config(100_0000000);
    let stats = SafetyPoolContract::init(false).unwrap();
    let vaults = vec![vault(5, 160_0000000, 3000_0000000)];
    // Nothing deposited yet: the factor cannot be raised.
    assert!(!can_settle(&core, stats, &vaults, 0_0586660));
    let o = SafetyPoolContract::deposit(&core, stats, false, Vec::new(), AccountId(1), 400_0000000, 0).unwrap();
    assert!(can_settle(&core, o.stats, &vaults, 0_0586660));
    assert!(!can_settle(&core, o.stats, &vaults, 0));
}
