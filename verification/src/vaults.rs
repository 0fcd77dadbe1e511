//! The vaults engine: users lock collateral in a vault to mint a stablecoin
//! of some denomination; vaults whose collateral ratio falls below the
//! minimum can be liquidated.
use vstd::prelude::*;
use crate::ids::{AccountId, SymbolId};
use crate::math::SCALE;

verus! {

/// The key under which a vault is stored: its collateral-ratio index, its
/// owner and its denomination.
#[derive(Clone, Copy, Debug, PartialEq, Eq, Structural)]
pub struct VaultKey {
    pub index: u128,
    pub account: AccountId,
    pub denomination: SymbolId,
}

/// A vault key that may be missing (the end of the list).
#[derive(Clone, Copy, Debug, PartialEq, Eq, Structural)]
pub enum OptionalVaultKey {
    Absent,
    Present(VaultKey),
}

/// A user's vault, linked to the vault with the next higher index.
#[derive(Clone, Copy, Debug, PartialEq, Eq, Structural)]
pub struct Vault {
    pub index: u128,
    pub next_key: OptionalVaultKey,
    pub account: AccountId,
    pub denomination: SymbolId,
    pub total_debt: u128,
    pub total_collateral: u128,
}


/// Errors raised by the vaults engine.
#[derive(Clone, Copy, Debug, PartialEq, Eq, Structural)]
pub enum SCErrors {
    CoreAlreadySet,
    InvalidFee,
    CurrencyAlreadyAdded,
    CurrencyDoesntExist,
    CurrencyIsInactive,
    InvalidOpeningCollateralRatio,
    UserAlreadyHasDenominationVault,
    PanicModeEnabled,
    VaultsInfoHasNotStarted,
    InvalidMinDebtAmount,
    InvalidPrevVaultIndex,
    PrevVaultDoesntExist,
    InvalidPrevKeyDenomination,
    VaultDoesntExist,
    ThereAreNoVaults,
    InvalidMinCollateralAmount,
    IndexProvidedIsNotTheOneSaved,
    PrevVaultCantBeNone,
    CollateralRateUnderMinimum,
    DepositAmountIsMoreThanTotalDebt,
    NextPrevVaultShouldBeNone,
    NotEnoughVaultsToLiquidate,
    UserVaultCantBeLiquidated,
}

/// The engine's configuration.
#[derive(Clone, Copy, Debug, PartialEq, Eq, Structural)]
pub struct CoreState {
    pub col_token: AccountId,
    pub stable_issuer: AccountId,
    pub admin: AccountId,
    pub protocol_manager: AccountId,
    pub panic_mode: bool,
    pub treasury: AccountId,
    /// The protocol fee, scaled by `SCALE` (50000 is 0.5%).
    pub fee: u128,
    pub oracle: AccountId,
}

/// A stablecoin the engine can mint.
#[derive(Clone, Copy, Debug, PartialEq, Eq, Structural)]
pub struct Currency {
    pub denomination: SymbolId,
    pub active: bool,
    pub contract: AccountId,
}

/// The conditions and totals of the vaults of one denomination.
#[derive(Clone, Copy, Debug, PartialEq, Eq, Structural)]
pub struct VaultsInfo {
    pub denomination: SymbolId,
    pub min_col_rate: u128,
    pub min_debt_creation: u128,
    pub opening_col_rate: u128,
    pub total_vaults: u64,
    pub total_col: u128,
    pub total_debt: u128,
    /// The vault with the lowest collateral ratio.
    pub lowest_key: OptionalVaultKey,
}

/// The key of a user's vault of a denomination.
#[derive(Clone, Copy, Debug, PartialEq, Eq, Structural)]
pub struct VaultIndexKey {
    pub user: AccountId,
    pub denomination: SymbolId,
}

/// A price from the oracle: the value of the collateral in the
/// denomination, scaled by `SCALE`, and when it was recorded.
#[derive(Clone, Copy, Debug, PartialEq, Eq, Structural)]
pub struct PriceData {
    pub price: i128,
    pub timestamp: u64,
}

/// The highest protocol fee accepted at initialisation (1%).
pub const MAX_FEE: u128 = 100000;

/// How old, in seconds, an oracle price may be.
pub const MAX_PRICE_AGE: u64 = 1200;

// ---------------------------------------------------------------------------
// Formulas
// ---------------------------------------------------------------------------

/// The fee charged on `amount` at the rate `fee` (scaled by `SCALE`).
pub open spec fn fee_on(fee: u128, amount: u128) -> int {
    amount * fee / (SCALE as int)
}

/// The collateral ratio of a vault at `rate`, scaled by `SCALE`.
pub open spec fn deposit_ratio(rate: u128, collateral: u128, debt: u128) -> int {
    rate * collateral / (debt as int)
}

/// The index under which vaults are ordered: collateral per unit of debt,
/// scaled by 10^9.
pub open spec fn vault_index(debt: u128, collateral: u128) -> int {
    collateral * 1000000000 / (debt as int)
}

/// The fee charged on `amount`.
pub fn calc_fee(fee: &u128, amount: &u128) -> (r: u128)
    requires
        *amount * *fee <= u128::MAX,
    ensures
        r == fee_on(*fee, *amount),
{
    (*amount * *fee) / SCALE
}

/// The collateral ratio of a vault at a rate.
pub fn calculate_deposit_ratio(currency_rate: &u128, collateral: &u128, debt: &u128) -> (r: u128)
    requires
        *debt != 0,
        *currency_rate * *collateral <= u128::MAX,
    ensures
        r == deposit_ratio(*currency_rate, *collateral, *debt),
{
    (*currency_rate * *collateral) / *debt
}

/// The ordering index of a vault with the given debt and collateral.
pub fn calculate_user_vault_index(debt: u128, collateral: u128) -> (r: u128)
    requires
        debt != 0,
        collateral * 1000000000 <= u128::MAX,
    ensures
        r == vault_index(debt, collateral),
{
    (collateral * 1000000000) / debt
}

/// Whether a vault's collateral ratio at `rate` is below the minimum.
pub fn can_be_liquidated(vault: &Vault, vaults_info: &VaultsInfo, rate: &u128) -> (r: bool)
    requires
        vault.total_debt != 0,
        *rate * vault.total_collateral <= u128::MAX,
    ensures
        r == (deposit_ratio(*rate, vault.total_collateral, vault.total_debt)
            < vaults_info.min_col_rate),
{
    calculate_deposit_ratio(rate, &vault.total_collateral, &vault.total_debt)
        < vaults_info.min_col_rate
}

// ---------------------------------------------------------------------------
// Validations
// ---------------------------------------------------------------------------

/// Whether every given key is of the vault's denomination.
pub open spec fn keys_match_denomination(vault_key: VaultKey, keys: Seq<OptionalVaultKey>) -> bool {
    forall|i: int|
        0 <= i < keys.len() ==> match #[trigger] keys[i] {
            OptionalVaultKey::Absent => true,
            OptionalVaultKey::Present(k) => k.denomination == vault_key.denomination,
        }
}

/// The keys given to place a vault in the list must be of its denomination.
pub fn validate_prev_keys(vault_key: &VaultKey, prev_keys: &Vec<OptionalVaultKey>) -> (r: Result<
    (),
    SCErrors,
>)
    ensures
        keys_match_denomination(*vault_key, prev_keys@) <==> r is Ok,
        !keys_match_denomination(*vault_key, prev_keys@) ==> (r matches Err(e) && e
            == SCErrors::InvalidPrevKeyDenomination),
{
    let mut i: usize = 0;
    while i < prev_keys.len()
        invariant
            i <= prev_keys.len(),
            forall|j: int|
                0 <= j < i ==> match #[trigger] prev_keys@[j] {
                    OptionalVaultKey::Absent => true,
                    OptionalVaultKey::Present(k) => k.denomination == vault_key.denomination,
                },
        decreases prev_keys.len() - i,
    {
        match prev_keys[i] {
            OptionalVaultKey::Absent => {},
            OptionalVaultKey::Present(k) => {
                if k.denomination != vault_key.denomination {
                    assert(!keys_match_denomination(*vault_key, prev_keys@)) by {
                        assert(prev_keys@[i as int] == OptionalVaultKey::Present(k));
                    }
                    return Err(SCErrors::InvalidPrevKeyDenomination);
                }
            },
        }
        i = i + 1;
    }
    Ok(())
}

/// Refuses a vault whose collateral ratio at the oracle's price would fall
/// under the opening ratio.
pub fn assert_col_rate_under_min(
    rate_price: &i128,
    total_debt: &u128,
    total_collateral: &u128,
    opening_col_rate: &u128,
) -> (r: Result<(), SCErrors>)
    requires
        *total_debt != 0,
        (*rate_price as u128) * *total_collateral <= u128::MAX,
    ensures
        deposit_ratio(*rate_price as u128, *total_collateral, *total_debt) < *opening_col_rate
            ==> r == Err::<(), SCErrors>(SCErrors::CollateralRateUnderMinimum),
        deposit_ratio(*rate_price as u128, *total_collateral, *total_debt) >= *opening_col_rate
            ==> r == Ok::<(), SCErrors>(()),
{
    let new_collateral_value: u128 = (*rate_price as u128) * *total_collateral;
    let new_deposit_rate: u128 = new_collateral_value / *total_debt;
    if new_deposit_rate < *opening_col_rate {
        Err(SCErrors::CollateralRateUnderMinimum)
    } else {
        Ok(())
    }
}

/// The first check that refuses an update of a vault, if any: the keys must
/// be of the vault's denomination, the index given must be the one saved,
/// and a missing previous key is only allowed for the lowest vault.
pub open spec fn update_error(
    target_vault: Vault,
    target_vault_key: VaultKey,
    prev_key: OptionalVaultKey,
    vault_key: VaultKey,
    new_prev_key: OptionalVaultKey,
    lowest_key: VaultKey,
) -> Option<SCErrors> {
    if !keys_match_denomination(vault_key, seq![prev_key, new_prev_key]) {
        Some(SCErrors::InvalidPrevKeyDenomination)
    } else if target_vault.index != vault_key.index {
        Some(SCErrors::IndexProvidedIsNotTheOneSaved)
    } else if prev_key == OptionalVaultKey::Absent && target_vault_key != lowest_key {
        Some(SCErrors::PrevVaultCantBeNone)
    } else {
        None
    }
}

/// The checks common to the updates of a vault (see `update_error`).
pub fn assert_regular_vault_updates_validations(
    target_vault: &Vault,
    target_vault_key: &VaultKey,
    prev_key: &OptionalVaultKey,
    vault_key: &VaultKey,
    new_prev_key: &OptionalVaultKey,
    lowest_key: &VaultKey,
) -> (r: Result<(), SCErrors>)
    ensures
        match update_error(
            *target_vault,
            *target_vault_key,
            *prev_key,
            *vault_key,
            *new_prev_key,
            *lowest_key,
        ) {
            Some(e) => r == Err::<(), SCErrors>(e),
            None => r == Ok::<(), SCErrors>(()),
        },
{
    let mut keys: Vec<OptionalVaultKey> = Vec::new();
    keys.push(*prev_key);
    keys.push(*new_prev_key);
    assert(keys@ =~= seq![*prev_key, *new_prev_key]);
    match validate_prev_keys(vault_key, &keys) {
        Ok(()) => {},
        Err(e) => {
            return Err(e);
        },
    }
    if target_vault.index != vault_key.index {
        return Err(SCErrors::IndexProvidedIsNotTheOneSaved);
    }
    let prev_is_none: bool = match prev_key {
        OptionalVaultKey::Absent => true,
        OptionalVaultKey::Present(_) => false,
    };
    if prev_is_none && *target_vault_key != *lowest_key {
        return Err(SCErrors::PrevVaultCantBeNone);
    }
    Ok(())
}


// ---------------------------------------------------------------------------
// Contract entry points
// ---------------------------------------------------------------------------

/// Whether the engine refuses to act on prices: in panic mode, or when the
/// oracle's price is older than `MAX_PRICE_AGE` seconds.
pub open spec fn price_unusable(core: CoreState, rate: PriceData, now: u64) -> bool {
    core.panic_mode || rate.timestamp < (if now >= MAX_PRICE_AGE {
        now - MAX_PRICE_AGE
    } else {
        0
    })
}

/// The key a vault is stored under.
pub open spec fn key_of(v: Vault) -> VaultKey {
    VaultKey { index: v.index, account: v.account, denomination: v.denomination }
}

/// The lowest key once `target` has been taken out of the list: its
/// successor when it was the lowest vault.
pub open spec fn lowest_after_withdraw(info: VaultsInfo, lowest: VaultKey, target: Vault) -> OptionalVaultKey {
    if lowest == key_of(target) {
        target.next_key
    } else {
        info.lowest_key
    }
}

// ---------------------------------------------------------------------------
// The ordered list of vaults
// ---------------------------------------------------------------------------

/// The vault stored under `key` with the given debt, collateral and link.
pub open spec fn vault_at(key: VaultKey, next_key: OptionalVaultKey, debt: u128, collateral: u128) -> Vault {
    Vault {
        index: key.index,
        next_key,
        account: key.account,
        denomination: key.denomination,
        total_debt: debt,
        total_collateral: collateral,
    }
}

/// The new vault, the updated previous vault and the lowest key once the
/// vault under `new_key` is linked after `prev` (first when there is none).
pub open spec fn linked(
    lowest_key: OptionalVaultKey,
    new_key: VaultKey,
    prev: Option<Vault>,
    debt: u128,
    collateral: u128,
) -> (Vault, Option<Vault>, OptionalVaultKey) {
    match prev {
        None => (
            vault_at(new_key, lowest_key, debt, collateral),
            None,
            OptionalVaultKey::Present(new_key),
        ),
        Some(p) => (
            vault_at(new_key, p.next_key, debt, collateral),
            Some(Vault { next_key: OptionalVaultKey::Present(new_key), ..p }),
            lowest_key,
        ),
    }
}

/// The previous vault once `target` is taken out of the list.
pub open spec fn unlinked(target: Vault, prev: Option<Vault>) -> Option<Vault> {
    match prev {
        None => None,
        Some(p) => Some(Vault { next_key: target.next_key, ..p }),
    }
}

/// Links a new vault into the list right after `prev` (the stored vault
/// under the previous key), or first when there is none. Gives back the new
/// vault, the previous vault now pointing to it, and the lowest key of the
/// list.
pub fn link_vault(
    lowest_key: OptionalVaultKey,
    new_key: VaultKey,
    prev: Option<Vault>,
    debt: u128,
    collateral: u128,
) -> (r: (Vault, Option<Vault>, OptionalVaultKey))
    ensures
        r == linked(lowest_key, new_key, prev, debt, collateral),
{
    match prev {
        None => (
            Vault {
                index: new_key.index,
                next_key: lowest_key,
                account: new_key.account,
                denomination: new_key.denomination,
                total_debt: debt,
                total_collateral: collateral,
            },
            None,
            OptionalVaultKey::Present(new_key),
        ),
        Some(p) => {
            let mut linked = p;
            linked.next_key = OptionalVaultKey::Present(new_key);
            (
                Vault {
                    index: new_key.index,
                    next_key: p.next_key,
                    account: new_key.account,
                    denomination: new_key.denomination,
                    total_debt: debt,
                    total_collateral: collateral,
                },
                Some(linked),
                lowest_key,
            )
        },
    }
}

/// Takes `target` out of the list: the vault before it (`prev`, when there
/// is one) now points to the vault after it.
pub fn unlink_vault(target: &Vault, prev: Option<Vault>) -> (r: Option<Vault>)
    ensures
        r == unlinked(*target, prev),
{
    match prev {
        None => None,
        Some(p) => {
            let mut relinked = p;
            relinked.next_key = target.next_key;
            Some(relinked)
        },
    }
}

/// How many of the vaults read along the list a listing gives back: at most
/// `total`, and when only the vaults open to liquidation are asked for,
/// those before the first one that is not.
pub open spec fn listing_length(
    vaults: Seq<Vault>,
    info: VaultsInfo,
    total: u32,
    only_to_liquidate: bool,
    rate: u128,
) -> nat
    decreases vaults.len(),
{
    if vaults.len() == 0 || total == 0 {
        0
    } else if only_to_liquidate && !(deposit_ratio(
        rate,
        vaults[0].total_collateral,
        vaults[0].total_debt,
    ) < info.min_col_rate) {
        0
    } else {
        1 + listing_length(vaults.drop_first(), info, (total - 1) as u32, only_to_liquidate, rate)
    }
}

/// The number of vaults, read in list order, that a listing returns (see
/// `listing_length`).
pub fn listed_count(
    vaults: &Vec<Vault>,
    info: &VaultsInfo,
    total: u32,
    only_to_liquidate: bool,
    rate: u128,
) -> (n: usize)
    requires
        forall|i: int|
            0 <= i < vaults@.len() ==> (#[trigger] vaults@[i]).total_debt != 0 && rate
                * vaults@[i].total_collateral <= u128::MAX,
    ensures
        n == listing_length(vaults@, *info, total, only_to_liquidate, rate),
        n <= vaults@.len(),
        n <= total,
{
    let mut n: usize = 0;
    let mut left: u32 = total;
    let mut stop: bool = false;
    assert(vaults@.skip(0) =~= vaults@);
    while n < vaults.len() && left > 0 && !stop
        invariant
            n <= vaults@.len(),
            n + left == total,
            forall|i: int|
                0 <= i < vaults@.len() ==> (#[trigger] vaults@[i]).total_debt != 0 && rate
                    * vaults@[i].total_collateral <= u128::MAX,
            !stop ==> listing_length(vaults@, *info, total, only_to_liquidate, rate) == n
                + listing_length(vaults@.skip(n as int), *info, left, only_to_liquidate, rate),
            stop ==> listing_length(vaults@, *info, total, only_to_liquidate, rate) == n,
        decreases vaults@.len() - n + (if stop {
            0int
        } else {
            1int
        }),
    {
        proof {
            let rest = vaults@.skip(n as int);
            assert(rest[0] == vaults@[n as int]);
            assert(rest.drop_first() =~= vaults@.skip(n + 1));
        }
        if only_to_liquidate && !can_be_liquidated(&vaults[n], info, &rate) {
            stop = true;
        } else {
            n = n + 1;
            left = left - 1;
        }
    }
    proof {
        if !stop {
            let rest = vaults@.skip(n as int);
            assert(rest.len() == 0 || left == 0);
        }
    }
    n
}

/// The vaults contract. Each method takes what the contract reads from its
/// storage, the ledger and the oracle, and gives back what it writes or the
/// error it raises; authorisation, token movements and the maintenance of
/// the ordered list of vaults are left to the host.
pub struct VaultsContract;

/// What a change of a vault's debt or collateral writes: the vault's new
/// key, debt and collateral, and the denomination's updated information
/// (whose lowest key is the one left once the vault is taken out of the
/// list; reinserting the vault may change it), with the fee charged.
#[derive(Clone, Copy, Debug, PartialEq, Eq, Structural)]
pub struct VaultUpdate {
    pub new_key: VaultKey,
    pub total_debt: u128,
    pub total_collateral: u128,
    pub vaults_info: VaultsInfo,
    pub fee: u128,
}

/// What paying a vault's debt writes.
#[derive(Clone, Copy, Debug, PartialEq, Eq, Structural)]
pub enum DebtPayment {
    /// The debt is paid in full: the vault is removed and its collateral,
    /// less the fee, given back.
    Closed { collateral_returned: u128, fee: u128, vaults_info: VaultsInfo },
    /// Part of the debt is paid: the vault is reinserted with less debt.
    Reduced(VaultUpdate),
}

/// What a liquidation writes and moves: the denomination's information,
/// the stablecoins the liquidator burns, the collateral it receives and the
/// fee.
#[derive(Clone, Copy, Debug, PartialEq, Eq, Structural)]
pub struct VaultsLiquidation {
    pub vaults_info: VaultsInfo,
    pub debt_paid: u128,
    pub collateral_to_liquidator: u128,
    pub fee: u128,
}

/// Where a listing of vaults starts.
#[derive(Clone, Copy, Debug, PartialEq, Eq, Structural)]
pub enum VaultsListing {
    /// There is nothing to list.
    Empty,
    /// The listing walks the vaults after the given key (from the lowest
    /// vault when the key is absent).
    After(OptionalVaultKey),
}

/// How a liquidation walk over the listed vaults ends.
pub enum LiquidationWalk {
    Overflow,
    CantBeLiquidated,
    /// The denomination's information after all vaults, with the collateral
    /// and debt gathered.
    Done(VaultsInfo, int, int),
}

/// The liquidation of the listed vaults from position `i`, starting from
/// `info` with `col` collateral and `debt` gathered.
pub open spec fn liquidation_walk(
    vaults: Seq<Vault>,
    i: int,
    info: VaultsInfo,
    rate: u128,
    col: int,
    debt: int,
) -> LiquidationWalk
    decreases vaults.len() - i,
{
    if i < 0 || i >= vaults.len() {
        LiquidationWalk::Done(info, col, debt)
    } else {
        let v = vaults[i];
        if v.total_debt == 0 || rate * v.total_collateral > u128::MAX {
            LiquidationWalk::Overflow
        } else if deposit_ratio(rate, v.total_collateral, v.total_debt) >= info.min_col_rate {
            LiquidationWalk::CantBeLiquidated
        } else if col + v.total_collateral > u128::MAX || debt + v.total_debt > u128::MAX
            || info.total_vaults < 1 || info.total_col < v.total_collateral || info.total_debt
            < v.total_debt {
            LiquidationWalk::Overflow
        } else {
            liquidation_walk(
                vaults,
                i + 1,
                VaultsInfo {
                    total_vaults: (info.total_vaults - 1) as u64,
                    total_col: (info.total_col - v.total_collateral) as u128,
                    total_debt: (info.total_debt - v.total_debt) as u128,
                    lowest_key: v.next_key,
                    ..info
                },
                rate,
                col + v.total_collateral,
                debt + v.total_debt,
            )
        }
    }
}


/// The collateral that goes into a new vault: the deposit less the fee.
pub open spec fn net_collateral(core: CoreState, collateral_amount: u128) -> int {
    collateral_amount - fee_on(core.fee, collateral_amount)
}

/// The first check that refuses a new vault, if any.
pub open spec fn new_vault_error(
    currency: Option<Currency>,
    has_vault: bool,
    core: CoreState,
    rate: PriceData,
    now: u64,
    vaults_info: Option<VaultsInfo>,
    prev_key: OptionalVaultKey,
    prev_exists: bool,
    initial_debt: u128,
    collateral_amount: u128,
    denomination: SymbolId,
) -> Option<SCErrors> {
    let vault_col = net_collateral(core, collateral_amount) as u128;
    if currency is None {
        Some(SCErrors::CurrencyDoesntExist)
    } else if !currency->0.active {
        Some(SCErrors::CurrencyIsInactive)
    } else if has_vault {
        Some(SCErrors::UserAlreadyHasDenominationVault)
    } else if price_unusable(core, rate, now) {
        Some(SCErrors::PanicModeEnabled)
    } else if vaults_info is None {
        Some(SCErrors::VaultsInfoHasNotStarted)
    } else if vaults_info->0.min_debt_creation > initial_debt {
        Some(SCErrors::InvalidMinDebtAmount)
    } else if deposit_ratio(rate.price as u128, vault_col, initial_debt)
        < vaults_info->0.opening_col_rate {
        Some(SCErrors::InvalidOpeningCollateralRatio)
    } else {
        match prev_key {
            OptionalVaultKey::Absent => None,
            OptionalVaultKey::Present(v) => if vault_index(initial_debt, vault_col) < v.index {
                Some(SCErrors::InvalidPrevVaultIndex)
            } else if !prev_exists {
                Some(SCErrors::PrevVaultDoesntExist)
            } else if v.denomination != denomination {
                Some(SCErrors::InvalidPrevKeyDenomination)
            } else {
                None
            },
        }
    }
}

/// The arithmetic of a new vault stays in range at each point it is reached.
pub open spec fn new_vault_fits(
    currency: Option<Currency>,
    has_vault: bool,
    core: CoreState,
    rate: PriceData,
    now: u64,
    vaults_info: Option<VaultsInfo>,
    initial_debt: u128,
    collateral_amount: u128,
) -> bool {
    let vault_col = net_collateral(core, collateral_amount);
    currency is Some && currency->0.active && !has_vault && !price_unusable(core, rate, now) ==> {
        &&& collateral_amount * core.fee <= u128::MAX
        &&& fee_on(core.fee, collateral_amount) <= collateral_amount
        &&& vaults_info is Some && vaults_info->0.min_debt_creation <= initial_debt ==> {
            let i = vaults_info->0;
            &&& initial_debt != 0
            &&& (rate.price as u128) * vault_col <= u128::MAX
            &&& deposit_ratio(rate.price as u128, vault_col as u128, initial_debt)
                >= i.opening_col_rate ==> {
                &&& vault_col * 1000000000 <= u128::MAX
                &&& i.total_vaults + 1 <= u64::MAX
                &&& i.total_debt + initial_debt <= u128::MAX
                &&& i.total_col + vault_col <= u128::MAX
            }
        }
    }
}

/// What opening a vault writes and moves: the vault's key, the collateral
/// it holds and the fee (the caller deposits the collateral, pays the fee
/// and is minted the initial debt), and the denomination's totals (its
/// lowest key is updated by the insertion of the vault in the list).
#[derive(Clone, Copy, Debug, PartialEq, Eq, Structural)]
pub struct NewVault {
    pub vault_key: VaultKey,
    pub collateral: u128,
    pub fee: u128,
    pub vaults_info: VaultsInfo,
}


/// The checks common to the updates of a stored vault `target`, if one
/// fails: there must be vaults, and the update's keys must fit (see
/// `update_error`).
pub open spec fn stored_update_error(
    info: VaultsInfo,
    target: Vault,
    prev_key: OptionalVaultKey,
    vault_key: VaultKey,
    new_prev_key: OptionalVaultKey,
) -> Option<SCErrors> {
    match info.lowest_key {
        OptionalVaultKey::Absent => Some(SCErrors::ThereAreNoVaults),
        OptionalVaultKey::Present(lowest) => update_error(
            target,
            key_of(target),
            prev_key,
            vault_key,
            new_prev_key,
            lowest,
        ),
    }
}

/// The updated vault's key for new debt and collateral.
pub open spec fn rekeyed(target: Vault, debt: u128, collateral: u128) -> VaultKey {
    VaultKey {
        index: vault_index(debt, collateral) as u128,
        account: target.account,
        denomination: target.denomination,
    }
}

/// The denomination's information once `target` is taken out of the list.
pub open spec fn info_without(info: VaultsInfo, target: Vault) -> VaultsInfo {
    VaultsInfo { lowest_key: lowest_after_withdraw(info, info.lowest_key->0, target), ..info }
}

/// The denomination's totals once a vault of `debt` and `col` is opened.
pub open spec fn info_with_vault(i: VaultsInfo, debt: int, col: int) -> VaultsInfo {
    VaultsInfo {
        total_vaults: (i.total_vaults + 1) as u64,
        total_debt: (i.total_debt + debt) as u128,
        total_col: (i.total_col + col) as u128,
        ..i
    }
}

/// The denomination's information once `target`, whose debt is paid in
/// full, is closed and taken out of the list.
pub open spec fn info_closing(info: VaultsInfo, target: Vault) -> VaultsInfo {
    VaultsInfo {
        total_vaults: (info.total_vaults - 1) as u64,
        total_col: (info.total_col - target.total_collateral) as u128,
        total_debt: (info.total_debt - target.total_debt) as u128,
        ..info_without(info, target)
    }
}

/// The lowest key of a denomination's list once `target` is taken out of
/// it: the vault after `target` when `target` was the lowest one, the same
/// lowest key otherwise.
pub fn lowest_key_without(info: &VaultsInfo, target: &Vault) -> (r: OptionalVaultKey)
    ensures
        match info.lowest_key {
            OptionalVaultKey::Absent => r == OptionalVaultKey::Absent,
            OptionalVaultKey::Present(lowest) => r == lowest_after_withdraw(*info, lowest, *target),
        },
{
    match info.lowest_key {
        OptionalVaultKey::Absent => OptionalVaultKey::Absent,
        OptionalVaultKey::Present(lowest) => {
            let target_key = VaultKey {
                index: target.index,
                account: target.account,
                denomination: target.denomination,
            };
            if lowest == target_key {
                target.next_key
            } else {
                info.lowest_key
            }
        },
    }
}

/// The first check that refuses adding collateral, if any.
pub open spec fn increase_collateral_error(
    currency: Option<Currency>,
    core: CoreState,
    info: VaultsInfo,
    target: Vault,
    prev_key: OptionalVaultKey,
    vault_key: VaultKey,
    new_prev_key: OptionalVaultKey,
    amount: u128,
) -> Option<SCErrors> {
    if currency is None {
        Some(SCErrors::CurrencyDoesntExist)
    } else if !currency->0.active {
        Some(SCErrors::CurrencyIsInactive)
    } else if amount < core.fee * 10 {
        Some(SCErrors::InvalidMinCollateralAmount)
    } else {
        stored_update_error(info, target, prev_key, vault_key, new_prev_key)
    }
}

/// The first check that refuses withdrawing collateral or adding debt,
/// before the ratio check, if any.
pub open spec fn priced_update_error(
    currency: Option<Currency>,
    core: CoreState,
    rate: PriceData,
    now: u64,
    info: VaultsInfo,
    target: Vault,
    prev_key: OptionalVaultKey,
    vault_key: VaultKey,
    new_prev_key: OptionalVaultKey,
) -> Option<SCErrors> {
    if currency is None {
        Some(SCErrors::CurrencyDoesntExist)
    } else if !currency->0.active {
        Some(SCErrors::CurrencyIsInactive)
    } else if price_unusable(core, rate, now) {
        Some(SCErrors::PanicModeEnabled)
    } else {
        stored_update_error(info, target, prev_key, vault_key, new_prev_key)
    }
}

/// A vault's collateral less `amount`, floored at zero.
pub open spec fn collateral_left(target: Vault, amount: u128) -> u128 {
    if target.total_collateral >= amount {
        (target.total_collateral - amount) as u128
    } else {
        0
    }
}

/// The first check that refuses paying debt, if any.
pub open spec fn pay_debt_error(
    currency: Option<Currency>,
    info: VaultsInfo,
    target: Vault,
    prev_key: OptionalVaultKey,
    vault_key: VaultKey,
    new_prev_key: OptionalVaultKey,
    amount: u128,
) -> Option<SCErrors> {
    if currency is None {
        Some(SCErrors::CurrencyDoesntExist)
    } else if stored_update_error(info, target, prev_key, vault_key, new_prev_key) is Some {
        stored_update_error(info, target, prev_key, vault_key, new_prev_key)
    } else if amount > target.total_debt {
        Some(SCErrors::DepositAmountIsMoreThanTotalDebt)
    } else if target.total_debt == amount {
        if new_prev_key is Present {
            Some(SCErrors::NextPrevVaultShouldBeNone)
        } else {
            None
        }
    } else if target.total_debt - amount < info.min_debt_creation {
        Some(SCErrors::InvalidMinDebtAmount)
    } else {
        None
    }
}

impl VaultsContract {
    /// The initial configuration: refused when already set, or when the fee
    /// is above 1%.
    pub fn init(
        core_set: bool,
        admin: AccountId,
        protocol_manager: AccountId,
        col_token: AccountId,
        stable_issuer: AccountId,
        treasury: AccountId,
        fee: u128,
        oracle: AccountId,
    ) -> (r: Result<CoreState, SCErrors>)
        ensures
            core_set ==> r == Err::<CoreState, SCErrors>(SCErrors::CoreAlreadySet),
            !core_set && fee > MAX_FEE ==> r == Err::<CoreState, SCErrors>(SCErrors::InvalidFee),
            !core_set && fee <= MAX_FEE ==> r == Ok::<CoreState, SCErrors>(
                CoreState {
                    col_token,
                    stable_issuer,
                    admin,
                    protocol_manager,
                    panic_mode: false,
                    treasury,
                    fee,
                    oracle,
                },
            ),
    {
        if core_set {
            return Err(SCErrors::CoreAlreadySet);
        }
        if fee > MAX_FEE {
            return Err(SCErrors::InvalidFee);
        }
        Ok(
            CoreState {
                col_token,
                stable_issuer,
                admin,
                protocol_manager,
                panic_mode: false,
                treasury,
                fee,
                oracle,
            },
        )
    }

    /// Replaces one of the configured addresses: the admin (`typ` 0, with the
    /// admin's authorisation), the protocol manager (1) or the oracle (2,
    /// both with the protocol manager's). Gives back the new configuration
    /// and the address whose authorisation is needed.
    pub fn set_address(core: CoreState, typ: u32, address: AccountId) -> (r: (CoreState, AccountId))
        requires
            typ <= 2,
        ensures
            typ == 0 ==> r == (CoreState { admin: address, ..core }, core.admin),
            typ == 1 ==> r == (CoreState { protocol_manager: address, ..core }, core.protocol_manager),
            typ == 2 ==> r == (CoreState { oracle: address, ..core }, core.protocol_manager),
    {
        let mut core = core;
        if typ == 0 {
            let auth = core.admin;
            core.admin = address;
            (core, auth)
        } else if typ == 1 {
            let auth = core.protocol_manager;
            core.protocol_manager = address;
            (core, auth)
        } else {
            let auth = core.protocol_manager;
            core.oracle = address;
            (core, auth)
        }
    }

    /// The configuration with a new fee (set by the admin).
    pub fn set_fee(core: CoreState, new_fee: u128) -> (r: CoreState)
        ensures
            r == (CoreState { fee: new_fee, ..core }),
    {
        let mut core = core;
        core.fee = new_fee;
        core
    }

    /// The configuration with panic mode switched (by the protocol manager).
    pub fn set_panic(core: CoreState, status: bool) -> (r: CoreState)
        ensures
            r == (CoreState { panic_mode: status, ..core }),
    {
        let mut core = core;
        core.panic_mode = status;
        core
    }

    /// Repoints the link of a vault (a management operation): the next key
    /// must be of the vault's denomination.
    pub fn set_next_key(target_key: &VaultKey, target_vault: Vault, next_key: OptionalVaultKey) -> (r: Result<
        Vault,
        SCErrors,
    >)
        ensures
            keys_match_denomination(*target_key, seq![next_key]) ==> r == Ok::<Vault, SCErrors>(
                Vault { next_key, ..target_vault },
            ),
            !keys_match_denomination(*target_key, seq![next_key]) ==> r == Err::<Vault, SCErrors>(
                SCErrors::InvalidPrevKeyDenomination,
            ),
    {
        let mut keys: Vec<OptionalVaultKey> = Vec::new();
        keys.push(next_key);
        assert(keys@ =~= seq![next_key]);
        match validate_prev_keys(target_key, &keys) {
            Ok(()) => {},
            Err(e) => {
                return Err(e);
            },
        }
        let mut v = target_vault;
        v.next_key = next_key;
        Ok(v)
    }

    /// A new, inactive currency; refused when the denomination is taken.
    pub fn create_currency(exists: bool, denomination: SymbolId, contract: AccountId) -> (r: Result<
        Currency,
        SCErrors,
    >)
        ensures
            exists ==> r == Err::<Currency, SCErrors>(SCErrors::CurrencyAlreadyAdded),
            !exists ==> r == Ok::<Currency, SCErrors>(
                Currency { denomination, active: false, contract },
            ),
    {
        if exists {
            return Err(SCErrors::CurrencyAlreadyAdded);
        }
        Ok(Currency { denomination, active: false, contract })
    }

    /// A stored currency, which must exist.
    pub fn get_currency(stored: Option<Currency>) -> (r: Result<Currency, SCErrors>)
        ensures
            match stored {
                Some(c) => r == Ok::<Currency, SCErrors>(c),
                None => r == Err::<Currency, SCErrors>(SCErrors::CurrencyDoesntExist),
            },
    {
        match stored {
            Some(c) => Ok(c),
            None => Err(SCErrors::CurrencyDoesntExist),
        }
    }

    /// A stored vault, looked up by its key, which must exist.
    pub fn get_vault_from_key(stored: Option<Vault>) -> (r: Result<Vault, SCErrors>)
        ensures
            match stored {
                Some(v) => r == Ok::<Vault, SCErrors>(v),
                None => r == Err::<Vault, SCErrors>(SCErrors::VaultDoesntExist),
            },
    {
        match stored {
            Some(v) => Ok(v),
            None => Err(SCErrors::VaultDoesntExist),
        }
    }

    /// Where a listing of the vaults of `denomination` starts: nothing to
    /// list when no key is given and there are no vaults; otherwise the walk
    /// starts after `prev_key` (from the lowest vault when it is absent),
    /// which must be of the denomination.
    pub fn get_vaults(
        prev_key: OptionalVaultKey,
        denomination: SymbolId,
        lowest_key: OptionalVaultKey,
    ) -> (r: Result<VaultsListing, SCErrors>)
        ensures
            match prev_key {
                OptionalVaultKey::Absent => if lowest_key is Absent {
                    r == Ok::<VaultsListing, SCErrors>(VaultsListing::Empty)
                } else {
                    r == Ok::<VaultsListing, SCErrors>(VaultsListing::After(prev_key))
                },
                OptionalVaultKey::Present(k) => if k.denomination != denomination {
                    r == Err::<VaultsListing, SCErrors>(SCErrors::InvalidPrevKeyDenomination)
                } else {
                    r == Ok::<VaultsListing, SCErrors>(VaultsListing::After(prev_key))
                },
            },
    {
        match prev_key {
            OptionalVaultKey::Present(k) => {
                if k.denomination != denomination {
                    return Err(SCErrors::InvalidPrevKeyDenomination);
                }
                Ok(VaultsListing::After(prev_key))
            },
            OptionalVaultKey::Absent => match lowest_key {
                OptionalVaultKey::Absent => Ok(VaultsListing::Empty),
                OptionalVaultKey::Present(_) => Ok(VaultsListing::After(prev_key)),
            },
        }
    }

    /// Activates or deactivates a stored currency.
    pub fn toggle_currency(stored: Option<Currency>, active: bool) -> (r: Result<Currency, SCErrors>)
        ensures
            match stored {
                Some(c) => r == Ok::<Currency, SCErrors>(Currency { active, ..c }),
                None => r == Err::<Currency, SCErrors>(SCErrors::CurrencyDoesntExist),
            },
    {
        let mut currency: Currency = match Self::get_currency(stored) {
            Ok(c) => c,
            Err(e) => {
                return Err(e);
            },
        };
        currency.active = active;
        Ok(currency)
    }

    /// Sets the conditions of a denomination's vaults, keeping its totals;
    /// the opening ratio must be above the minimum ratio.
    pub fn set_vault_conditions(
        existing: Option<VaultsInfo>,
        min_col_rate: u128,
        min_debt_creation: u128,
        opening_col_rate: u128,
        denomination: SymbolId,
    ) -> (r: Result<VaultsInfo, SCErrors>)
        ensures
            opening_col_rate <= min_col_rate ==> r == Err::<VaultsInfo, SCErrors>(
                SCErrors::InvalidOpeningCollateralRatio,
            ),
            opening_col_rate > min_col_rate ==> r == Ok::<VaultsInfo, SCErrors>(
                match existing {
                    None => VaultsInfo {
                        denomination,
                        min_col_rate,
                        min_debt_creation,
                        opening_col_rate,
                        total_vaults: 0,
                        total_col: 0,
                        total_debt: 0,
                        lowest_key: OptionalVaultKey::Absent,
                    },
                    Some(i) => VaultsInfo {
                        denomination,
                        min_col_rate,
                        min_debt_creation,
                        opening_col_rate,
                        ..i
                    },
                },
            ),
    {
        if opening_col_rate <= min_col_rate {
            return Err(SCErrors::InvalidOpeningCollateralRatio);
        }
        match existing {
            None => Ok(
                VaultsInfo {
                    denomination,
                    min_col_rate,
                    min_debt_creation,
                    opening_col_rate,
                    total_vaults: 0,
                    total_col: 0,
                    total_debt: 0,
                    lowest_key: OptionalVaultKey::Absent,
                },
            ),
            Some(i) => Ok(
                VaultsInfo {
                    denomination,
                    min_col_rate,
                    min_debt_creation,
                    opening_col_rate,
                    total_vaults: i.total_vaults,
                    total_col: i.total_col,
                    total_debt: i.total_debt,
                    lowest_key: i.lowest_key,
                },
            ),
        }
    }

    /// Liquidates the first `total_vaults_to_liquidate` vaults the engine
    /// lists for liquidation (`vaults`, lowest ratio first, at most that
    /// many): each must be under the minimum ratio at the oracle's rate. The
    /// liquidator burns their debt and receives their collateral less the
    /// fee; the vaults are to be removed.
    pub fn liquidate(
        core: &CoreState,
        currency: Option<Currency>,
        rate: PriceData,
        vaults_info: VaultsInfo,
        vaults: &Vec<Vault>,
        total_vaults_to_liquidate: u32,
    ) -> (r: Result<VaultsLiquidation, SCErrors>)
        requires
            vaults@.len() <= total_vaults_to_liquidate,
            currency is Some && vaults@.len() >= total_vaults_to_liquidate ==> {
                let w = liquidation_walk(vaults@, 0, vaults_info, rate.price as u128, 0, 0);
                &&& !(w is Overflow)
                &&& w is Done ==> w->1 * core.fee <= u128::MAX && fee_on(core.fee, w->1 as u128)
                    <= w->1
            },
        ensures
            currency is None ==> r == Err::<VaultsLiquidation, SCErrors>(SCErrors::CurrencyDoesntExist),
            currency is Some && vaults@.len() < total_vaults_to_liquidate ==> r == Err::<
                VaultsLiquidation,
                SCErrors,
            >(SCErrors::NotEnoughVaultsToLiquidate),
            currency is Some && vaults@.len() >= total_vaults_to_liquidate ==> match liquidation_walk(
                vaults@,
                0,
                vaults_info,
                rate.price as u128,
                0,
                0,
            ) {
                LiquidationWalk::Done(info, col, debt) => r == Ok::<VaultsLiquidation, SCErrors>(
                    VaultsLiquidation {
                        vaults_info: info,
                        debt_paid: debt as u128,
                        collateral_to_liquidator: (col - fee_on(core.fee, col as u128)) as u128,
                        fee: fee_on(core.fee, col as u128) as u128,
                    },
                ),
                _ => r == Err::<VaultsLiquidation, SCErrors>(SCErrors::UserVaultCantBeLiquidated),
            },
    {
        match Self::get_currency(currency) {
            Ok(_) => {},
            Err(e) => {
                return Err(e);
            },
        }
        if vaults.len() < total_vaults_to_liquidate as usize {
            return Err(SCErrors::NotEnoughVaultsToLiquidate);
        }
        let price: u128 = rate.price as u128;
        let ghost w0 = liquidation_walk(vaults@, 0, vaults_info, price, 0, 0);
        let mut info = vaults_info;
        let mut collateral_to_withdraw: u128 = 0;
        let mut amount_to_deposit: u128 = 0;
        let mut i: usize = 0;
        while i < vaults.len()
            invariant
                i <= vaults@.len(),
                currency is Some,
                vaults@.len() >= total_vaults_to_liquidate,
                price == rate.price as u128,
                w0 == liquidation_walk(vaults@, 0, vaults_info, rate.price as u128, 0, 0),
                !(w0 is Overflow),
                w0 == liquidation_walk(
                    vaults@,
                    i as int,
                    info,
                    price,
                    collateral_to_withdraw as int,
                    amount_to_deposit as int,
                ),
            decreases vaults@.len() - i,
        {
            let vault: Vault = vaults[i];
            if !can_be_liquidated(&vault, &info, &price) {
                return Err(SCErrors::UserVaultCantBeLiquidated);
            }
            collateral_to_withdraw = collateral_to_withdraw + vault.total_collateral;
            amount_to_deposit = amount_to_deposit + vault.total_debt;
            info.total_vaults = info.total_vaults - 1;
            info.total_col = info.total_col - vault.total_collateral;
            info.total_debt = info.total_debt - vault.total_debt;
            info.lowest_key = vault.next_key;
            i = i + 1;
        }
        let fee: u128 = calc_fee(&core.fee, &collateral_to_withdraw);
        let end_collateral: u128 = collateral_to_withdraw - fee;
        Ok(
            VaultsLiquidation {
                vaults_info: info,
                debt_paid: amount_to_deposit,
                collateral_to_liquidator: end_collateral,
                fee,
            },
        )
    }

    /// Opens a vault of `denomination` for `caller` with `initial_debt` of
    /// debt against `collateral_amount` of collateral (less the fee).
    /// `prev_exists` tells whether the vault under `prev_key` is stored.
    pub fn new_vault(
        currency: Option<Currency>,
        has_vault: bool,
        core: &CoreState,
        rate: PriceData,
        now: u64,
        vaults_info: Option<VaultsInfo>,
        prev_key: OptionalVaultKey,
        prev_exists: bool,
        caller: AccountId,
        initial_debt: u128,
        collateral_amount: u128,
        denomination: SymbolId,
    ) -> (r: Result<NewVault, SCErrors>)
        requires
            new_vault_fits(
                currency,
                has_vault,
                *core,
                rate,
                now,
                vaults_info,
                initial_debt,
                collateral_amount,
            ),
        ensures
            match new_vault_error(
                currency,
                has_vault,
                *core,
                rate,
                now,
                vaults_info,
                prev_key,
                prev_exists,
                initial_debt,
                collateral_amount,
                denomination,
            ) {
                Some(e) => r == Err::<NewVault, SCErrors>(e),
                None => {
                    let vault_col = net_collateral(*core, collateral_amount);
                    let i = vaults_info->0;
                    r == Ok::<NewVault, SCErrors>(
                        NewVault {
                            vault_key: VaultKey {
                                index: vault_index(initial_debt, vault_col as u128) as u128,
                                account: caller,
                                denomination,
                            },
                            collateral: vault_col as u128,
                            fee: fee_on(core.fee, collateral_amount) as u128,
                            vaults_info: info_with_vault(i, initial_debt as int, vault_col),
                        },
                    )
                },
            },
    {
        let currency: Currency = match Self::get_currency(currency) {
            Ok(c) => c,
            Err(e) => {
                return Err(e);
            },
        };
        if !currency.active {
            return Err(SCErrors::CurrencyIsInactive);
        }
        if has_vault {
            return Err(SCErrors::UserAlreadyHasDenominationVault);
        }
        if core.panic_mode || rate.timestamp < now.saturating_sub(MAX_PRICE_AGE) {
            return Err(SCErrors::PanicModeEnabled);
        }
        let fee: u128 = calc_fee(&core.fee, &collateral_amount);
        let vault_col: u128 = collateral_amount - fee;
        let mut info: VaultsInfo = match vaults_info {
            Some(i) => i,
            None => {
                return Err(SCErrors::VaultsInfoHasNotStarted);
            },
        };
        if info.min_debt_creation > initial_debt {
            return Err(SCErrors::InvalidMinDebtAmount);
        }
        let deposit_collateral_rate: u128 = calculate_deposit_ratio(
            &(rate.price as u128),
            &vault_col,
            &initial_debt,
        );
        if deposit_collateral_rate < info.opening_col_rate {
            return Err(SCErrors::InvalidOpeningCollateralRatio);
        }
        let new_vault_index: u128 = calculate_user_vault_index(initial_debt, vault_col);
        let new_vault_key = VaultKey { index: new_vault_index, account: caller, denomination };
        match prev_key {
            OptionalVaultKey::Absent => {},
            OptionalVaultKey::Present(value) => {
                if new_vault_index < value.index {
                    return Err(SCErrors::InvalidPrevVaultIndex);
                }
                if !prev_exists {
                    return Err(SCErrors::PrevVaultDoesntExist);
                }
                if value.denomination != denomination {
                    return Err(SCErrors::InvalidPrevKeyDenomination);
                }
            },
        }
        info.total_vaults = info.total_vaults + 1;
        info.total_debt = info.total_debt + initial_debt;
        info.total_col = info.total_col + vault_col;
        Ok(NewVault { vault_key: new_vault_key, collateral: vault_col, fee, vaults_info: info })
    }

    /// Adds `amount` of collateral (less the fee) to the caller's vault
    /// `target`, which is to be reinserted under its new key.
    pub fn increase_collateral(
        currency: Option<Currency>,
        core: &CoreState,
        vaults_info: VaultsInfo,
        target: Vault,
        prev_key: OptionalVaultKey,
        vault_key: VaultKey,
        new_prev_key: OptionalVaultKey,
        amount: u128,
    ) -> (r: Result<VaultUpdate, SCErrors>)
        requires
            currency is Some && currency->0.active ==> core.fee * 10 <= u128::MAX,
            currency is Some && currency->0.active && amount >= core.fee * 10 ==> {
                &&& amount * core.fee <= u128::MAX
                &&& fee_on(core.fee, amount) <= amount
            },
            increase_collateral_error(
                currency,
                *core,
                vaults_info,
                target,
                prev_key,
                vault_key,
                new_prev_key,
                amount,
            ) is None ==> {
                let added = amount - fee_on(core.fee, amount);
                &&& target.total_collateral + added <= u128::MAX
                &&& target.total_debt != 0
                &&& (target.total_collateral + added) * 1000000000 <= u128::MAX
                &&& vaults_info.total_col + added <= u128::MAX
            },
        ensures
            match increase_collateral_error(
                currency,
                *core,
                vaults_info,
                target,
                prev_key,
                vault_key,
                new_prev_key,
                amount,
            ) {
                Some(e) => r == Err::<VaultUpdate, SCErrors>(e),
                None => {
                    let fee = fee_on(core.fee, amount);
                    let added = amount - fee;
                    let col = (target.total_collateral + added) as u128;
                    r == Ok::<VaultUpdate, SCErrors>(
                        VaultUpdate {
                            new_key: rekeyed(target, target.total_debt, col),
                            total_debt: target.total_debt,
                            total_collateral: col,
                            vaults_info: VaultsInfo {
                                total_col: (vaults_info.total_col + added) as u128,
                                ..info_without(vaults_info, target)
                            },
                            fee: fee as u128,
                        },
                    )
                },
            },
    {
        let currency: Currency = match Self::get_currency(currency) {
            Ok(c) => c,
            Err(e) => {
                return Err(e);
            },
        };
        if !currency.active {
            return Err(SCErrors::CurrencyIsInactive);
        }
        if amount < core.fee * 10 {
            return Err(SCErrors::InvalidMinCollateralAmount);
        }
        let fee: u128 = calc_fee(&core.fee, &amount);
        let collateral: u128 = amount - fee;
        let mut info = vaults_info;
        let lowest_key: VaultKey = match info.lowest_key {
            OptionalVaultKey::Absent => {
                return Err(SCErrors::ThereAreNoVaults);
            },
            OptionalVaultKey::Present(key) => key,
        };
        let target_key = VaultKey {
            index: target.index,
            account: target.account,
            denomination: target.denomination,
        };
        match assert_regular_vault_updates_validations(
            &target,
            &target_key,
            &prev_key,
            &vault_key,
            &new_prev_key,
            &lowest_key,
        ) {
            Ok(()) => {},
            Err(e) => {
                return Err(e);
            },
        }
        if lowest_key == target_key {
            info.lowest_key = target.next_key;
        }
        let new_collateral: u128 = target.total_collateral + collateral;
        let new_key = VaultKey {
            index: calculate_user_vault_index(target.total_debt, new_collateral),
            account: target.account,
            denomination: target.denomination,
        };
        info.total_col = info.total_col + collateral;
        Ok(
            VaultUpdate {
                new_key,
                total_debt: target.total_debt,
                total_collateral: new_collateral,
                vaults_info: info,
                fee,
            },
        )
    }

    /// Withdraws `amount` of collateral from the caller's vault `target`,
    /// keeping its ratio at or above the opening ratio; the amount is to be
    /// sent to the owner and the vault reinserted under its new key.
    pub fn withdraw_collateral(
        currency: Option<Currency>,
        core: &CoreState,
        rate: PriceData,
        now: u64,
        vaults_info: VaultsInfo,
        target: Vault,
        prev_key: OptionalVaultKey,
        vault_key: VaultKey,
        new_prev_key: OptionalVaultKey,
        amount: u128,
    ) -> (r: Result<VaultUpdate, SCErrors>)
        requires
            priced_update_error(
                currency,
                *core,
                rate,
                now,
                vaults_info,
                target,
                prev_key,
                vault_key,
                new_prev_key,
            ) is None ==> {
                let col = collateral_left(target, amount);
                &&& target.total_debt != 0
                &&& (rate.price as u128) * col <= u128::MAX
                &&& deposit_ratio(rate.price as u128, col, target.total_debt)
                    >= vaults_info.opening_col_rate ==> {
                    &&& col * 1000000000 <= u128::MAX
                    &&& vaults_info.total_col >= amount
                }
            },
        ensures
            match priced_update_error(
                currency,
                *core,
                rate,
                now,
                vaults_info,
                target,
                prev_key,
                vault_key,
                new_prev_key,
            ) {
                Some(e) => r == Err::<VaultUpdate, SCErrors>(e),
                None => {
                    let col = collateral_left(target, amount);
                    if deposit_ratio(rate.price as u128, col, target.total_debt)
                        < vaults_info.opening_col_rate {
                        r == Err::<VaultUpdate, SCErrors>(SCErrors::CollateralRateUnderMinimum)
                    } else {
                        r == Ok::<VaultUpdate, SCErrors>(
                            VaultUpdate {
                                new_key: rekeyed(target, target.total_debt, col),
                                total_debt: target.total_debt,
                                total_collateral: col,
                                vaults_info: VaultsInfo {
                                    total_col: (vaults_info.total_col - amount) as u128,
                                    ..info_without(vaults_info, target)
                                },
                                fee: 0,
                            },
                        )
                    }
                },
            },
    {
        let currency: Currency = match Self::get_currency(currency) {
            Ok(c) => c,
            Err(e) => {
                return Err(e);
            },
        };
        if !currency.active {
            return Err(SCErrors::CurrencyIsInactive);
        }
        if core.panic_mode || rate.timestamp < now.saturating_sub(MAX_PRICE_AGE) {
            return Err(SCErrors::PanicModeEnabled);
        }
        let mut info = vaults_info;
        let lowest_key: VaultKey = match info.lowest_key {
            OptionalVaultKey::Absent => {
                return Err(SCErrors::ThereAreNoVaults);
            },
            OptionalVaultKey::Present(key) => key,
        };
        let target_key = VaultKey {
            index: target.index,
            account: target.account,
            denomination: target.denomination,
        };
        match assert_regular_vault_updates_validations(
            &target,
            &target_key,
            &prev_key,
            &vault_key,
            &new_prev_key,
            &lowest_key,
        ) {
            Ok(()) => {},
            Err(e) => {
                return Err(e);
            },
        }
        if lowest_key == target_key {
            info.lowest_key = target.next_key;
        }
        let new_collateral_amount: u128 = target.total_collateral.saturating_sub(amount);
        match assert_col_rate_under_min(
            &rate.price,
            &target.total_debt,
            &new_collateral_amount,
            &info.opening_col_rate,
        ) {
            Ok(()) => {},
            Err(e) => {
                return Err(e);
            },
        }
        let new_key = VaultKey {
            index: calculate_user_vault_index(target.total_debt, new_collateral_amount),
            account: target.account,
            denomination: target.denomination,
        };
        info.total_col = info.total_col - amount;
        Ok(
            VaultUpdate {
                new_key,
                total_debt: target.total_debt,
                total_collateral: new_collateral_amount,
                vaults_info: info,
                fee: 0,
            },
        )
    }

    /// Adds `amount` of debt to the caller's vault `target`, keeping its
    /// ratio at or above the opening ratio; the amount is to be minted to
    /// the owner and the vault reinserted under its new key.
    pub fn increase_debt(
        currency: Option<Currency>,
        core: &CoreState,
        rate: PriceData,
        now: u64,
        vaults_info: VaultsInfo,
        target: Vault,
        prev_key: OptionalVaultKey,
        vault_key: VaultKey,
        new_prev_key: OptionalVaultKey,
        amount: u128,
    ) -> (r: Result<VaultUpdate, SCErrors>)
        requires
            priced_update_error(
                currency,
                *core,
                rate,
                now,
                vaults_info,
                target,
                prev_key,
                vault_key,
                new_prev_key,
            ) is None ==> {
                let debt = target.total_debt + amount;
                &&& debt <= u128::MAX
                &&& debt != 0
                &&& (rate.price as u128) * target.total_collateral <= u128::MAX
                &&& deposit_ratio(rate.price as u128, target.total_collateral, debt as u128)
                    >= vaults_info.opening_col_rate ==> {
                    &&& target.total_collateral * 1000000000 <= u128::MAX
                    &&& vaults_info.total_debt + amount <= u128::MAX
                }
            },
        ensures
            match priced_update_error(
                currency,
                *core,
                rate,
                now,
                vaults_info,
                target,
                prev_key,
                vault_key,
                new_prev_key,
            ) {
                Some(e) => r == Err::<VaultUpdate, SCErrors>(e),
                None => {
                    let debt = (target.total_debt + amount) as u128;
                    if deposit_ratio(rate.price as u128, target.total_collateral, debt)
                        < vaults_info.opening_col_rate {
                        r == Err::<VaultUpdate, SCErrors>(SCErrors::CollateralRateUnderMinimum)
                    } else {
                        r == Ok::<VaultUpdate, SCErrors>(
                            VaultUpdate {
                                new_key: rekeyed(target, debt, target.total_collateral),
                                total_debt: debt,
                                total_collateral: target.total_collateral,
                                vaults_info: VaultsInfo {
                                    total_debt: (vaults_info.total_debt + amount) as u128,
                                    ..info_without(vaults_info, target)
                                },
                                fee: 0,
                            },
                        )
                    }
                },
            },
    {
        let currency: Currency = match Self::get_currency(currency) {
            Ok(c) => c,
            Err(e) => {
                return Err(e);
            },
        };
        if !currency.active {
            return Err(SCErrors::CurrencyIsInactive);
        }
        if core.panic_mode || rate.timestamp < now.saturating_sub(MAX_PRICE_AGE) {
            return Err(SCErrors::PanicModeEnabled);
        }
        let mut info = vaults_info;
        let lowest_key: VaultKey = match info.lowest_key {
            OptionalVaultKey::Absent => {
                return Err(SCErrors::ThereAreNoVaults);
            },
            OptionalVaultKey::Present(key) => key,
        };
        let target_key = VaultKey {
            index: target.index,
            account: target.account,
            denomination: target.denomination,
        };
        match assert_regular_vault_updates_validations(
            &target,
            &target_key,
            &prev_key,
            &vault_key,
            &new_prev_key,
            &lowest_key,
        ) {
            Ok(()) => {},
            Err(e) => {
                return Err(e);
            },
        }
        if lowest_key == target_key {
            info.lowest_key = target.next_key;
        }
        let new_debt_amount: u128 = target.total_debt + amount;
        match assert_col_rate_under_min(
            &rate.price,
            &new_debt_amount,
            &target.total_collateral,
            &info.opening_col_rate,
        ) {
            Ok(()) => {},
            Err(e) => {
                return Err(e);
            },
        }
        let new_key = VaultKey {
            index: calculate_user_vault_index(new_debt_amount, target.total_collateral),
            account: target.account,
            denomination: target.denomination,
        };
        info.total_debt = info.total_debt + amount;
        Ok(
            VaultUpdate {
                new_key,
                total_debt: new_debt_amount,
                total_collateral: target.total_collateral,
                vaults_info: info,
                fee: 0,
            },
        )
    }

    /// Pays `amount` of the debt of the caller's vault `target` (the amount
    /// is to be burned). Paid in full, the vault is closed and its
    /// collateral less the fee given back; otherwise the remaining debt must
    /// stay above the minimum and the vault is reinserted.
    pub fn pay_debt(
        currency: Option<Currency>,
        core: &CoreState,
        vaults_info: VaultsInfo,
        target: Vault,
        prev_key: OptionalVaultKey,
        vault_key: VaultKey,
        new_prev_key: OptionalVaultKey,
        amount: u128,
    ) -> (r: Result<DebtPayment, SCErrors>)
        requires
            pay_debt_error(currency, vaults_info, target, prev_key, vault_key, new_prev_key, amount)
                is None ==> {
                &&& vaults_info.total_debt >= amount
                &&& target.total_debt == amount ==> {
                    &&& vaults_info.total_vaults >= 1
                    &&& vaults_info.total_col >= target.total_collateral
                    &&& target.total_collateral * core.fee <= u128::MAX
                    &&& fee_on(core.fee, target.total_collateral) <= target.total_collateral
                }
                &&& target.total_debt != amount ==> target.total_collateral * 1000000000
                    <= u128::MAX
            },
        ensures
            match pay_debt_error(
                currency,
                vaults_info,
                target,
                prev_key,
                vault_key,
                new_prev_key,
                amount,
            ) {
                Some(e) => r == Err::<DebtPayment, SCErrors>(e),
                None => {
                    let base = info_without(vaults_info, target);
                    let debt_left = (vaults_info.total_debt - amount) as u128;
                    if target.total_debt == amount {
                        let fee = fee_on(core.fee, target.total_collateral);
                        r == Ok::<DebtPayment, SCErrors>(
                            DebtPayment::Closed {
                                collateral_returned: (target.total_collateral - fee) as u128,
                                fee: fee as u128,
                                vaults_info: info_closing(vaults_info, target),
                            },
                        )
                    } else {
                        let debt = (target.total_debt - amount) as u128;
                        r == Ok::<DebtPayment, SCErrors>(
                            DebtPayment::Reduced(
                                VaultUpdate {
                                    new_key: rekeyed(target, debt, target.total_collateral),
                                    total_debt: debt,
                                    total_collateral: target.total_collateral,
                                    vaults_info: VaultsInfo { total_debt: debt_left, ..base },
                                    fee: 0,
                                },
                            ),
                        )
                    }
                },
            },
    {
        match Self::get_currency(currency) {
            Ok(_) => {},
            Err(e) => {
                return Err(e);
            },
        }
        let mut info = vaults_info;
        let lowest_key: VaultKey = match info.lowest_key {
            OptionalVaultKey::Absent => {
                return Err(SCErrors::ThereAreNoVaults);
            },
            OptionalVaultKey::Present(key) => key,
        };
        let target_key = VaultKey {
            index: target.index,
            account: target.account,
            denomination: target.denomination,
        };
        match assert_regular_vault_updates_validations(
            &target,
            &target_key,
            &prev_key,
            &vault_key,
            &new_prev_key,
            &lowest_key,
        ) {
            Ok(()) => {},
            Err(e) => {
                return Err(e);
            },
        }
        if amount > target.total_debt {
            return Err(SCErrors::DepositAmountIsMoreThanTotalDebt);
        }
        if target.total_debt == amount {
            match new_prev_key {
                OptionalVaultKey::Present(_) => {
                    return Err(SCErrors::NextPrevVaultShouldBeNone);
                },
                OptionalVaultKey::Absent => {},
            }
            info.total_vaults = info.total_vaults - 1;
            info.total_col = info.total_col - target.total_collateral;
            let fee: u128 = calc_fee(&core.fee, &target.total_collateral);
            if lowest_key == target_key {
                info.lowest_key = target.next_key;
            }
            info.total_debt = info.total_debt - amount;
            Ok(
                DebtPayment::Closed {
                    collateral_returned: target.total_collateral - fee,
                    fee,
                    vaults_info: info,
                },
            )
        } else {
            let new_vault_debt: u128 = target.total_debt - amount;
            if new_vault_debt < info.min_debt_creation {
                return Err(SCErrors::InvalidMinDebtAmount);
            }
            let new_vault_index: u128 = calculate_user_vault_index(
                new_vault_debt,
                target.total_collateral,
            );
            if lowest_key == target_key {
                info.lowest_key = target.next_key;
            }
            info.total_debt = info.total_debt - amount;
            Ok(
                DebtPayment::Reduced(
                    VaultUpdate {
                        new_key: VaultKey {
                            index: new_vault_index,
                            account: target.account,
                            denomination: target.denomination,
                        },
                        total_debt: new_vault_debt,
                        total_collateral: target.total_collateral,
                        vaults_info: info,
                        fee: 0,
                    },
                ),
            )
        }
    }

    /// Moves the caller's vault `target` to `destination`, which must not
    /// hold a vault of the denomination yet (`destination_has_vault`): the
    /// vault is to be reinserted under the returned key, at the same place.
    pub fn transfer_debt(
        vaults_info: VaultsInfo,
        target: Vault,
        prev_key: OptionalVaultKey,
        vault_key: VaultKey,
        destination: AccountId,
        destination_has_vault: bool,
    ) -> (r: Result<VaultKey, SCErrors>)
        ensures
            match stored_update_error(vaults_info, target, prev_key, vault_key, prev_key) {
                Some(e) => r == Err::<VaultKey, SCErrors>(e),
                None => if destination_has_vault {
                    r == Err::<VaultKey, SCErrors>(SCErrors::UserAlreadyHasDenominationVault)
                } else {
                    r == Ok::<VaultKey, SCErrors>(VaultKey { account: destination, ..key_of(target) })
                },
            },
    {
        let lowest_key: VaultKey = match vaults_info.lowest_key {
            OptionalVaultKey::Absent => {
                return Err(SCErrors::ThereAreNoVaults);
            },
            OptionalVaultKey::Present(key) => key,
        };
        let target_key = VaultKey {
            index: target.index,
            account: target.account,
            denomination: target.denomination,
        };
        match assert_regular_vault_updates_validations(
            &target,
            &target_key,
            &prev_key,
            &vault_key,
            &prev_key,
            &lowest_key,
        ) {
            Ok(()) => {},
            Err(e) => {
                return Err(e);
            },
        }
        if destination_has_vault {
            return Err(SCErrors::UserAlreadyHasDenominationVault);
        }
        Ok(VaultKey { index: target.index, account: destination, denomination: target.denomination })
    }
}


// ---------------------------------------------------------------------------
// Laws
// ---------------------------------------------------------------------------

/// A vault whose ratio meets the opening ratio, under conditions whose
/// opening ratio is above the minimum (as `set_vault_conditions` demands),
/// cannot be liquidated at the same price: opening a vault, withdrawing
/// collateral or adding debt never leaves a vault open to liquidation.
pub proof fn lemma_opened_vault_not_liquidatable(rate: u128, collateral: u128, debt: u128, info: VaultsInfo)
    requires
        info.opening_col_rate > info.min_col_rate,
        deposit_ratio(rate, collateral, debt) >= info.opening_col_rate,
    ensures
        !(deposit_ratio(rate, collateral, debt) < info.min_col_rate),
{
}

/// A liquidation takes out of the denomination's totals exactly the debt
/// and collateral of the vaults liquidated, one vault each.
pub proof fn lemma_liquidation_totals(
    vaults: Seq<Vault>,
    i: int,
    info: VaultsInfo,
    rate: u128,
    col: int,
    debt: int,
)
    requires
        0 <= i <= vaults.len(),
        liquidation_walk(vaults, i, info, rate, col, debt) is Done,
    ensures
        ({
            let w = liquidation_walk(vaults, i, info, rate, col, debt);
            &&& w->0.total_col + (w->1 - col) == info.total_col
            &&& w->0.total_debt + (w->2 - debt) == info.total_debt
            &&& w->0.total_vaults + (vaults.len() - i) == info.total_vaults
            &&& w->0.min_col_rate == info.min_col_rate
        }),
    decreases vaults.len() - i,
{
    if i < vaults.len() {
        let v = vaults[i];
        lemma_liquidation_totals(
            vaults,
            i + 1,
            VaultsInfo {
                total_vaults: (info.total_vaults - 1) as u64,
                total_col: (info.total_col - v.total_collateral) as u128,
                total_debt: (info.total_debt - v.total_debt) as u128,
                lowest_key: v.next_key,
                ..info
            },
            rate,
            col + v.total_collateral,
            debt + v.total_debt,
        );
    }
}

/// Every vault a liquidation accepts was under the minimum ratio.
pub proof fn lemma_liquidated_vaults_were_undercollateralised(
    vaults: Seq<Vault>,
    i: int,
    info: VaultsInfo,
    rate: u128,
    col: int,
    debt: int,
)
    requires
        0 <= i <= vaults.len(),
        liquidation_walk(vaults, i, info, rate, col, debt) is Done,
    ensures
        forall|j: int|
            i <= j < vaults.len() ==> deposit_ratio(
                rate,
                (#[trigger] vaults[j]).total_collateral,
                vaults[j].total_debt,
            ) < info.min_col_rate,
    decreases vaults.len() - i,
{
    if i < vaults.len() {
        let v = vaults[i];
        lemma_liquidated_vaults_were_undercollateralised(
            vaults,
            i + 1,
            VaultsInfo {
                total_vaults: (info.total_vaults - 1) as u64,
                total_col: (info.total_col - v.total_collateral) as u128,
                total_debt: (info.total_debt - v.total_debt) as u128,
                lowest_key: v.next_key,
                ..info
            },
            rate,
            col + v.total_collateral,
            debt + v.total_debt,
        );
    }
}

/// The fee never exceeds the amount it is charged on when the fee rate is
/// at most 1% (as `init` demands), and what the user keeps plus the fee is
/// the amount.
pub proof fn lemma_fee_within_amount(fee: u128, amount: u128)
    requires
        fee <= MAX_FEE,
    ensures
        0 <= fee_on(fee, amount) <= amount,
        (amount - fee_on(fee, amount)) + fee_on(fee, amount) == amount,
{
    assert(amount * fee <= amount * SCALE) by (nonlinear_arith)
        requires
            fee <= SCALE,
            amount >= 0,
    ;
    assert(0 <= amount * fee) by (nonlinear_arith)
        requires
            fee >= 0,
            amount >= 0,
    ;
    assert(amount * fee / (SCALE as int) <= amount * SCALE / (SCALE as int)) by (nonlinear_arith)
        requires
            amount * fee <= amount * SCALE,
    ;
    assert(amount * SCALE / (SCALE as int) == amount) by (nonlinear_arith);
    assert(0 <= amount * fee / (SCALE as int)) by (nonlinear_arith)
        requires
            0 <= amount * fee,
    ;
}

/// Taking a vault out of the list right after linking it in undoes the
/// link: the vault before it points again where it pointed before, and a
/// vault linked first hands the lowest place back to the vault it was put
/// in front of.
pub proof fn lemma_unlink_undoes_link(
    lowest_key: OptionalVaultKey,
    new_key: VaultKey,
    prev: Option<Vault>,
    debt: u128,
    collateral: u128,
)
    ensures
        ({
            let (v, p2, lowest) = linked(lowest_key, new_key, prev, debt, collateral);
            &&& unlinked(v, p2) == prev
            &&& prev is None ==> lowest == OptionalVaultKey::Present(new_key) && v.next_key
                == lowest_key
            &&& prev is Some ==> lowest == lowest_key
            &&& key_of(v) == new_key
        }),
{
}

/// Paying off a vault in full undoes its opening: the denomination's
/// numbers of vaults, debt and collateral come back to what they were
/// before the vault was opened, and its conditions are untouched.
pub proof fn lemma_closing_undoes_opening(i: VaultsInfo, target: Vault)
    requires
        i.total_vaults + 1 <= u64::MAX,
        i.total_debt + target.total_debt <= u128::MAX,
        i.total_col + target.total_collateral <= u128::MAX,
    ensures
        ({
            let opened = info_with_vault(i, target.total_debt as int, target.total_collateral as int);
            let closed = info_closing(opened, target);
            &&& closed.total_vaults == i.total_vaults
            &&& closed.total_debt == i.total_debt
            &&& closed.total_col == i.total_col
            &&& closed.min_col_rate == i.min_col_rate
            &&& closed.min_debt_creation == i.min_debt_creation
            &&& closed.opening_col_rate == i.opening_col_rate
            &&& closed.denomination == i.denomination
        }),
{
}

/// The fee is the amount times the fee rate over `SCALE`, the collateral
/// ratio the collateral's value over the debt, and the index the collateral
/// per unit of debt times 10^9, each rounded down.
pub proof fn lemma_vault_formulas(fee: u128, amount: u128, rate: u128, collateral: u128, debt: u128)
    requires
        debt > 0,
    ensures
        fee_on(fee, amount) * SCALE <= amount * fee,
        amount * fee < (fee_on(fee, amount) + 1) * SCALE,
        deposit_ratio(rate, collateral, debt) * debt <= rate * collateral,
        rate * collateral < (deposit_ratio(rate, collateral, debt) + 1) * debt,
        vault_index(debt, collateral) * debt <= collateral * 1000000000,
        collateral * 1000000000 < (vault_index(debt, collateral) + 1) * debt,
{
    crate::math::lemma_floor_div(amount * fee, SCALE as int);
    crate::math::lemma_floor_div(rate * collateral, debt as int);
    crate::math::lemma_floor_div(collateral * 1000000000, debt as int);
}

} // verus!
