use stable_protocol::ids::{AccountId, SymbolId};
use stable_protocol::vaults::{
    assert_col_rate_under_min, assert_regular_vault_updates_validations, calc_fee,
    calculate_deposit_ratio, calculate_user_vault_index, can_be_liquidated, link_vault, listed_count,
    lowest_key_without,
    unlink_vault, validate_prev_keys,
    CoreState, Currency, DebtPayment, OptionalVaultKey, PriceData, SCErrors, Vault, VaultKey,
    VaultsContract, VaultsInfo, VaultsListing, MAX_FEE, MAX_PRICE_AGE,
};

const USD: SymbolId = SymbolId(1);
const EUR: SymbolId = SymbolId(2);
const FEE: u128 = 50000;
const NOW: u64 = 10_000;

fn engine() -> CoreState {
    VaultsContract::init(
        false,
        AccountId(1),
        AccountId(2),
        AccountId(3),
        AccountId(4),
        AccountId(5),
        FEE,
        AccountId(6),
    )
    .unwrap()
}

fn active_currency() -> Currency {
    let c = VaultsContract::create_currency(false, USD, AccountId(7)).unwrap();
    VaultsContract::toggle_currency(Some(c), true).unwrap()
}

fn conditions() -> VaultsInfo {
    VaultsContract::set_vault_conditions(None, 11000000, 1000000000, 11500000, USD).unwrap()
}

fn price(p: i128) -> PriceData {
    PriceData { price: p, timestamp: NOW }
}

fn stored(key: VaultKey, next: OptionalVaultKey, debt: u128, collateral: u128) -> Vault {
    Vault {
        index: key.index,
        next_key: next,
        account: key.account,
        denomination: key.denomination,
        total_debt: debt,
        total_collateral: collateral,
    }
}

/// Opens a vault for `who` and gives back its key, its collateral and the
/// denomination's information.
fn open(who: u64, info: VaultsInfo, debt: u128, collateral: u128, p: i128) -> (VaultKey, u128, VaultsInfo) {
    let o = VaultsContract::new_vault(
        Some(active_currency()),
        false,
        &engine(),
        price(p),
        NOW,
        Some(info),
        OptionalVaultKey::Absent,
        false,
        AccountId(who),
        debt,
        collateral,
        USD,
    )
    .unwrap();
    (o.vault_key, o.collateral, o.vaults_info)
}

#[test]
fn test_transfer_debt() {
    let rate: i128 = 920330;
    let info = conditions();
    let (d1, d2, new_owner) = (101, 102, 103);

    let (key2, col2, info) = open(d2, info, 150_0000000, 5000_0000000, rate);
    let (key1, col1, info) = open(d1, info, 150_0000000, 3000_0000000, rate);
    assert_eq!(col1, 3000_0000000 - calc_fee(&FEE, &3000_0000000));
    assert_eq!(key1.index, 199_00000000);
    assert!(key1.index < key2.index);
    assert_eq!(info.total_vaults, 2);

    // The list, kept by the host, has the first depositor's vault lowest.
    let info = VaultsInfo { lowest_key: OptionalVaultKey::Present(key1), ..info };
    let vault1 = stored(key1, OptionalVaultKey::Present(key2), 150_0000000, col1);
    let vault2 = stored(key2, OptionalVaultKey::Absent, 150_0000000, col2);

    assert_eq!(
        VaultsContract::transfer_debt(
            info,
            vault2,
            OptionalVaultKey::Present(key1),
            key2,
            AccountId(d2),
            true,
        ),
        Err(SCErrors::UserAlreadyHasDenominationVault)
    );

    let new_key = VaultsContract::transfer_debt(
        info,
        vault1,
        OptionalVaultKey::Absent,
        key1,
        AccountId(new_owner),
        false,
    )
    .unwrap();
    assert_eq!(new_key.account, AccountId(new_owner));
    assert_eq!(new_key.index, vault1.index);
    assert_eq!(new_key.denomination, USD);

    // A vault that is not the lowest needs its previous key.
    assert_eq!(
        VaultsContract::transfer_debt(info, vault2, OptionalVaultKey::Absent, key2, AccountId(9), false),
        Err(SCErrors::PrevVaultCantBeNone)
    );
    // The key given must carry the saved index.
    let wrong = VaultKey { index: key1.index + 1, ..key1 };
    assert_eq!(
        VaultsContract::transfer_debt(info, vault1, OptionalVaultKey::Absent, wrong, AccountId(9), false),
        Err(SCErrors::IndexProvidedIsNotTheOneSaved)
    );
    let empty = VaultsInfo { lowest_key: OptionalVaultKey::Absent, ..info };
    assert_eq!(
        VaultsContract::transfer_debt(empty, vault1, OptionalVaultKey::Absent, key1, AccountId(9), false),
        Err(SCErrors::ThereAreNoVaults)
    );
}

#[test]
fn formulas() {
    assert_eq!(calc_fee(&FEE, &1000_0000000), 5_0000000);
    assert_eq!(calc_fee(&0, &1000_0000000), 0);
    assert_eq!(calculate_deposit_ratio(&1_0000000, &150, &100), 1_5000000);
    assert_eq!(calculate_user_vault_index(2, 3), 1_500_000_000);
    let v = stored(
        VaultKey { index: 0, account: AccountId(1), denomination: USD },
        OptionalVaultKey::Absent,
        100,
        100,
    );
    let info = conditions();
    assert!(can_be_liquidated(&v, &info, &1_0000000));
    assert!(!can_be_liquidated(&v, &info, &1_1000000));
    assert_eq!(assert_col_rate_under_min(&1_0000000, &100, &114, &11500000), Err(SCErrors::CollateralRateUnderMinimum));
    assert_eq!(assert_col_rate_under_min(&1_0000000, &100, &115, &11500000), Ok(()));
}

#[test]
fn init_and_settings() {
    assert_eq!(
        VaultsContract::init(true, AccountId(1), AccountId(2), AccountId(3), AccountId(4), AccountId(5), FEE, AccountId(6)),
        Err(SCErrors::CoreAlreadySet)
    );
    assert_eq!(
        VaultsContract::init(false, AccountId(1), AccountId(2), AccountId(3), AccountId(4), AccountId(5), MAX_FEE + 1, AccountId(6)),
        Err(SCErrors::InvalidFee)
    );
    let c = engine();
    assert_eq!(c.panic_mode, false);
    assert_eq!(c.fee, FEE);

    let (c2, auth) = VaultsContract::set_address(c, 0, AccountId(50));
    assert_eq!((c2.admin, auth), (AccountId(50), AccountId(1)));
    let (c2, auth) = VaultsContract::set_address(c, 1, AccountId(51));
    assert_eq!((c2.protocol_manager, auth), (AccountId(51), AccountId(2)));
    let (c2, auth) = VaultsContract::set_address(c, 2, AccountId(52));
    assert_eq!((c2.oracle, auth), (AccountId(52), AccountId(2)));
    assert_eq!(VaultsContract::set_fee(c, 7).fee, 7);
    assert_eq!(VaultsContract::set_panic(c, true).panic_mode, true);
}

#[test]
fn currencies_and_conditions() {
    assert_eq!(
        VaultsContract::create_currency(true, USD, AccountId(7)),
        Err(SCErrors::CurrencyAlreadyAdded)
    );
    let c = VaultsContract::create_currency(false, USD, AccountId(7)).unwrap();
    assert_eq!(c.active, false);
    assert_eq!(VaultsContract::get_currency(None), Err(SCErrors::CurrencyDoesntExist));
    assert_eq!(VaultsContract::toggle_currency(None, true), Err(SCErrors::CurrencyDoesntExist));
    assert_eq!(VaultsContract::toggle_currency(Some(c), true).unwrap().active, true);

    assert_eq!(
        VaultsContract::set_vault_conditions(None, 11000000, 1, 11000000, USD),
        Err(SCErrors::InvalidOpeningCollateralRatio)
    );
    let info = VaultsInfo { total_vaults: 3, total_col: 30, total_debt: 20, ..conditions() };
    let updated = VaultsContract::set_vault_conditions(Some(info), 12000000, 5, 13000000, USD).unwrap();
    assert_eq!(updated.total_vaults, 3);
    assert_eq!(updated.total_col, 30);
    assert_eq!(updated.min_col_rate, 12000000);
    assert_eq!(updated.opening_col_rate, 13000000);
}

#[test]
fn new_vault_errors() {
    let info = conditions();
    let c = engine();
    let cur = active_currency();
    let go = |currency: Option<Currency>, has: bool, config: &CoreState, rate: PriceData, info: Option<VaultsInfo>, prev: OptionalVaultKey, prev_exists: bool, debt: u128, col: u128| {
        VaultsContract::new_vault(currency, has, config, rate, NOW, info, prev, prev_exists, AccountId(1), debt, col, USD)
    };
    let p = price(920330);
    assert_eq!(go(None, false, &c, p, Some(info), OptionalVaultKey::Absent, false, 150_0000000, 3000_0000000), Err(SCErrors::CurrencyDoesntExist));
    let inactive = Currency { active: false, ..cur };
    assert_eq!(go(Some(inactive), false, &c, p, Some(info), OptionalVaultKey::Absent, false, 150_0000000, 3000_0000000), Err(SCErrors::CurrencyIsInactive));
    assert_eq!(go(Some(cur), true, &c, p, Some(info), OptionalVaultKey::Absent, false, 150_0000000, 3000_0000000), Err(SCErrors::UserAlreadyHasDenominationVault));
    let panicking = VaultsContract::set_panic(c, true);
    assert_eq!(go(Some(cur), false, &panicking, p, Some(info), OptionalVaultKey::Absent, false, 150_0000000, 3000_0000000), Err(SCErrors::PanicModeEnabled));
    let stale = PriceData { price: 920330, timestamp: NOW - MAX_PRICE_AGE - 1 };
    assert_eq!(go(Some(cur), false, &c, stale, Some(info), OptionalVaultKey::Absent, false, 150_0000000, 3000_0000000), Err(SCErrors::PanicModeEnabled));
    assert_eq!(go(Some(cur), false, &c, p, None, OptionalVaultKey::Absent, false, 150_0000000, 3000_0000000), Err(SCErrors::VaultsInfoHasNotStarted));
    assert_eq!(go(Some(cur), false, &c, p, Some(info), OptionalVaultKey::Absent, false, 50_0000000, 3000_0000000), Err(SCErrors::InvalidMinDebtAmount));
    assert_eq!(go(Some(cur), false, &c, p, Some(info), OptionalVaultKey::Absent, false, 150_0000000, 100_0000000), Err(SCErrors::InvalidOpeningCollateralRatio));
    let high = VaultKey { index: u128::MAX, account: AccountId(2), denomination: USD };
    assert_eq!(go(Some(cur), false, &c, p, Some(info), OptionalVaultKey::Present(high), true, 150_0000000, 3000_0000000), Err(SCErrors::InvalidPrevVaultIndex));
    let low = VaultKey { index: 1, account: AccountId(2), denomination: USD };
    assert_eq!(go(Some(cur), false, &c, p, Some(info), OptionalVaultKey::Present(low), false, 150_0000000, 3000_0000000), Err(SCErrors::PrevVaultDoesntExist));
    let other = VaultKey { index: 1, account: AccountId(2), denomination: EUR };
    assert_eq!(go(Some(cur), false, &c, p, Some(info), OptionalVaultKey::Present(other), true, 150_0000000, 3000_0000000), Err(SCErrors::InvalidPrevKeyDenomination));
    let ok = go(Some(cur), false, &c, p, Some(info), OptionalVaultKey::Present(low), true, 150_0000000, 3000_0000000).unwrap();
    assert_eq!(ok.fee, 15_0000000);
    assert_eq!(ok.vaults_info.total_debt, 150_0000000);
    assert_eq!(ok.vaults_info.total_col, 2985_0000000);
}

#[test]
fn updating_a_vault() {
    let rate: i128 = 920330;
    let (key, col, info) = open(101, conditions(), 150_0000000, 3000_0000000, rate);
    let info = VaultsInfo { lowest_key: OptionalVaultKey::Present(key), ..info };
    let vault = stored(key, OptionalVaultKey::Absent, 150_0000000, col);
    let c = engine();
    let cur = Some(active_currency());
    let none = OptionalVaultKey::Absent;

    // More collateral: the fee is taken from what is added.
    let up = VaultsContract::increase_collateral(cur, &c, info, vault, none, key, none, 100_0000000).unwrap();
    assert_eq!(up.fee, 5000000);
    assert_eq!(up.total_collateral, col + 100_0000000 - 5000000);
    assert_eq!(up.vaults_info.total_col, info.total_col + 100_0000000 - 5000000);
    assert_eq!(up.vaults_info.lowest_key, none);
    assert_eq!(
        VaultsContract::increase_collateral(cur, &c, info, vault, none, key, none, FEE * 10 - 1),
        Err(SCErrors::InvalidMinCollateralAmount)
    );

    // Less collateral, as long as the ratio stays above the opening ratio.
    let up = VaultsContract::withdraw_collateral(cur, &c, price(rate), NOW, info, vault, none, key, none, 100_0000000).unwrap();
    assert_eq!(up.total_collateral, col - 100_0000000);
    assert_eq!(up.new_key.index, calculate_user_vault_index(150_0000000, col - 100_0000000));
    assert_eq!(
        VaultsContract::withdraw_collateral(cur, &c, price(rate), NOW, info, vault, none, key, none, 2000_0000000),
        Err(SCErrors::CollateralRateUnderMinimum)
    );

    // More debt.
    let up = VaultsContract::increase_debt(cur, &c, price(rate), NOW, info, vault, none, key, none, 10_0000000).unwrap();
    assert_eq!(up.total_debt, 160_0000000);
    assert_eq!(up.vaults_info.total_debt, 160_0000000);
    assert_eq!(
        VaultsContract::increase_debt(cur, &c, price(rate), NOW, info, vault, none, key, none, 100_0000000),
        Err(SCErrors::CollateralRateUnderMinimum)
    );

    // Paying debt: in part, then in full.
    match VaultsContract::pay_debt(cur, &c, info, vault, none, key, none, 40_0000000).unwrap() {
        DebtPayment::Reduced(u) => {
            assert_eq!(u.total_debt, 110_0000000);
            assert_eq!(u.vaults_info.total_debt, 110_0000000);
        }
        DebtPayment::Closed { .. } => panic!("the vault still owes debt"),
    }
    assert_eq!(
        VaultsContract::pay_debt(cur, &c, info, vault, none, key, none, 145_0000000),
        Err(SCErrors::InvalidMinDebtAmount)
    );
    assert_eq!(
        VaultsContract::pay_debt(cur, &c, info, vault, none, key, none, 151_0000000),
        Err(SCErrors::DepositAmountIsMoreThanTotalDebt)
    );
    assert_eq!(
        VaultsContract::pay_debt(cur, &c, info, vault, none, key, OptionalVaultKey::Present(key), 150_0000000),
        Err(SCErrors::NextPrevVaultShouldBeNone)
    );
    match VaultsContract::pay_debt(cur, &c, info, vault, none, key, none, 150_0000000).unwrap() {
        DebtPayment::Closed { collateral_returned, fee, vaults_info } => {
            assert_eq!(fee, calc_fee(&FEE, &col));
            assert_eq!(collateral_returned, col - fee);
            assert_eq!(vaults_info.total_vaults, 0);
            assert_eq!(vaults_info.total_debt, 0);
            assert_eq!(vaults_info.total_col, 0);
        }
        DebtPayment::Reduced(_) => panic!("the debt was paid in full"),
    }
}

#[test]
fn liquidating_vaults() {
    let (k1, c1, info) = open(101, conditions(), 150_0000000, 3000_0000000, 920330);
    let (k2, c2, info) = open(102, info, 150_0000000, 5000_0000000, 920330);
    let info = VaultsInfo { lowest_key: OptionalVaultKey::Present(k1), ..info };
    let v1 = stored(k1, OptionalVaultKey::Present(k2), 150_0000000, c1);
    let v2 = stored(k2, OptionalVaultKey::Absent, 150_0000000, c2);
    let c = engine();
    let cur = Some(active_currency());

    // At the opening price nothing can be liquidated.
    assert_eq!(
        VaultsContract::liquidate(&c, cur, price(920330), info, &vec![v1], 1),
        Err(SCErrors::UserVaultCantBeLiquidated)
    );
    assert_eq!(
        VaultsContract::liquidate(&c, cur, price(500000), info, &vec![v1], 2),
        Err(SCErrors::NotEnoughVaultsToLiquidate)
    );
    assert_eq!(
        VaultsContract::liquidate(&c, None, price(500000), info, &vec![v1], 1),
        Err(SCErrors::CurrencyDoesntExist)
    );
    // At a price where only the first is under the minimum ratio.
    let l = VaultsContract::liquidate(&c, cur, price(500000), info, &vec![v1], 1).unwrap();
    assert_eq!(l.debt_paid, 150_0000000);
    assert_eq!(l.fee, calc_fee(&FEE, &c1));
    assert_eq!(l.collateral_to_liquidator, c1 - l.fee);
    assert_eq!(l.vaults_info.total_vaults, 1);
    assert_eq!(l.vaults_info.total_col, c2);
    assert_eq!(l.vaults_info.total_debt, 150_0000000);
    assert_eq!(l.vaults_info.lowest_key, OptionalVaultKey::Present(k2));
    assert_eq!(
        VaultsContract::liquidate(&c, cur, price(500000), info, &vec![v1, v2], 2),
        Err(SCErrors::UserVaultCantBeLiquidated)
    );
}

#[test]
fn key_validations() {
    let key = VaultKey { index: 5, account: AccountId(1), denomination: USD };
    let same = OptionalVaultKey::Present(VaultKey { index: 3, account: AccountId(2), denomination: USD });
    let other = OptionalVaultKey::Present(VaultKey { index: 3, account: AccountId(2), denomination: EUR });
    assert_eq!(validate_prev_keys(&key, &vec![OptionalVaultKey::Absent, same]), Ok(()));
    assert_eq!(validate_prev_keys(&key, &vec![same, other]), Err(SCErrors::InvalidPrevKeyDenomination));

    let vault = stored(key, OptionalVaultKey::Absent, 1, 1);
    assert_eq!(
        assert_regular_vault_updates_validations(&vault, &key, &OptionalVaultKey::Absent, &key, &OptionalVaultKey::Absent, &key),
        Ok(())
    );
    assert_eq!(
        assert_regular_vault_updates_validations(&vault, &key, &other, &key, &OptionalVaultKey::Absent, &key),
        Err(SCErrors::InvalidPrevKeyDenomination)
    );

    assert_eq!(VaultsContract::set_next_key(&key, vault, same).unwrap().next_key, same);
    assert_eq!(VaultsContract::set_next_key(&key, vault, other), Err(SCErrors::InvalidPrevKeyDenomination));
}

#[test]
fn looking_up_vaults() {
    let key = VaultKey { index: 5, account: AccountId(1), denomination: USD };
    let v = stored(key, OptionalVaultKey::Absent, 1, 1);
    assert_eq!(VaultsContract::get_vault_from_key(Some(v)), Ok(v));
    assert_eq!(VaultsContract::get_vault_from_key(None), Err(SCErrors::VaultDoesntExist));

    let none = OptionalVaultKey::Absent;
    let some = OptionalVaultKey::Present(key);
    assert_eq!(VaultsContract::get_vaults(none, USD, none), Ok(VaultsListing::Empty));
    assert_eq!(VaultsContract::get_vaults(none, USD, some), Ok(VaultsListing::After(none)));
    assert_eq!(VaultsContract::get_vaults(some, USD, none), Ok(VaultsListing::After(some)));
    assert_eq!(VaultsContract::get_vaults(some, EUR, some), Err(SCErrors::InvalidPrevKeyDenomination));
}

#[test]
fn the_ordered_list() {
    let k1 = VaultKey { index: 10, account: AccountId(1), denomination: USD };
    let k2 = VaultKey { index: 20, account: AccountId(2), denomination: USD };
    let k3 = VaultKey { index: 15, account: AccountId(3), denomination: USD };
    let none = OptionalVaultKey::Absent;

    // The first vault of an empty list becomes the lowest.
    let (v1, prev, lowest) = link_vault(none, k1, None, 5, 50);
    assert_eq!(v1.next_key, none);
    assert_eq!(prev, None);
    assert_eq!(lowest, OptionalVaultKey::Present(k1));
    // A vault linked after the first.
    let (v2, prev, lowest) = link_vault(lowest, k2, Some(v1), 5, 100);
    let v1 = prev.unwrap();
    assert_eq!(v1.next_key, OptionalVaultKey::Present(k2));
    assert_eq!(v2.next_key, none);
    assert_eq!(lowest, OptionalVaultKey::Present(k1));
    // A vault linked in between, then taken out again.
    let (v3, prev, _) = link_vault(lowest, k3, Some(v1), 5, 75);
    let linked1 = prev.unwrap();
    assert_eq!(linked1.next_key, OptionalVaultKey::Present(k3));
    assert_eq!(v3.next_key, OptionalVaultKey::Present(k2));
    assert_eq!(unlink_vault(&v3, Some(linked1)), Some(v1));
    assert_eq!(unlink_vault(&v3, None), None);

    // Listing: at most `total`, and only those open to liquidation when asked.
    let info = conditions();
    let listed = vec![v1, v3, v2];
    assert_eq!(listed_count(&listed, &info, 10, false, 1_0000000), 3);
    assert_eq!(listed_count(&listed, &info, 2, false, 1_0000000), 2);
    // At this rate the ratios are 1.0, 1.5 and 2.0: only the first is under
    // the minimum of 1.1.
    assert_eq!(listed_count(&listed, &info, 10, true, 1_000_000), 1);
    assert_eq!(listed_count(&listed, &info, 10, true, 1), 3);
    assert_eq!(listed_count(&listed, &info, 0, true, 1), 0);
}

#[test]
fn lowest_key_after_removal() {
    let k1 = VaultKey { index: 10, account: AccountId(1), denomination: USD };
    let k2 = VaultKey { index: 20, account: AccountId(2), denomination: USD };
    let v1 = stored(k1, OptionalVaultKey::Present(k2), 5, 50);
    let v2 = stored(k2, OptionalVaultKey::Absent, 5, 100);
    let info = VaultsInfo { lowest_key: OptionalVaultKey::Present(k1), ..conditions() };
    assert_eq!(lowest_key_without(&info, &v1), OptionalVaultKey::Present(k2));
    assert_eq!(lowest_key_without(&info, &v2), OptionalVaultKey::Present(k1));
    let empty = conditions();
    assert_eq!(lowest_key_without(&empty, &v1), OptionalVaultKey::Absent);
}
