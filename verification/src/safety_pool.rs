//! The safety pool: depositors lend stablecoins that pay off the debt of
//! under-collateralised vaults; the collateral received in each liquidation is
//! recorded and later claimed by the depositors in proportion to their
//! shares, and the share price falls with the deposits used.
use vstd::prelude::*;
use crate::ids::{AccountId, SymbolId};
use crate::math::{div_floor, SCALE};
use crate::vaults::Vault;

verus! {

/// Errors raised by the safety pool.
#[derive(Clone, Copy, Debug, PartialEq, Eq, Structural)]
pub enum SCErrors {
    ContractAlreadyInitiated,
    BelowMinDeposit,
    DepositDoesntExist,
    DepositAlreadyCreated,
    NothingToWithdraw,
    LockedPeriodUncompleted,
    CollateralAvailable,
    NoCollateralAvailable,
    CantLiquidateVaults,
    LiquidationDoesntExist,
    CantGetMoreThanTenLiquidations,
    RecentDistribution,
    UnexpectedError,
}

impl SCErrors {
    /// The contract error number the host reports for this error.
    pub open spec fn error_code(self) -> u32 {
        match self {
            SCErrors::ContractAlreadyInitiated => 10001,
            SCErrors::BelowMinDeposit => 20001,
            SCErrors::DepositDoesntExist => 20002,
            SCErrors::DepositAlreadyCreated => 20003,
            SCErrors::NothingToWithdraw => 20004,
            SCErrors::LockedPeriodUncompleted => 20005,
            SCErrors::CollateralAvailable => 20006,
            SCErrors::NoCollateralAvailable => 20007,
            SCErrors::CantLiquidateVaults => 30000,
            SCErrors::LiquidationDoesntExist => 30001,
            SCErrors::CantGetMoreThanTenLiquidations => 30002,
            SCErrors::RecentDistribution => 40000,
            SCErrors::UnexpectedError => 90000,
        }
    }

    pub fn code(&self) -> (c: u32)
        ensures
            c == self.error_code(),
    {
        match self {
            SCErrors::ContractAlreadyInitiated => 10001,
            SCErrors::BelowMinDeposit => 20001,
            SCErrors::DepositDoesntExist => 20002,
            SCErrors::DepositAlreadyCreated => 20003,
            SCErrors::NothingToWithdraw => 20004,
            SCErrors::LockedPeriodUncompleted => 20005,
            SCErrors::CollateralAvailable => 20006,
            SCErrors::NoCollateralAvailable => 20007,
            SCErrors::CantLiquidateVaults => 30000,
            SCErrors::LiquidationDoesntExist => 30001,
            SCErrors::CantGetMoreThanTenLiquidations => 30002,
            SCErrors::RecentDistribution => 40000,
            SCErrors::UnexpectedError => 90000,
        }
    }
}

/// The pool's configuration. The shares are fractions written as
/// `[numerator, denominator]`.
#[derive(Clone, Debug)]
pub struct CoreState {
    pub admin: AccountId,
    pub vaults_contract: AccountId,
    pub treasury_contract: AccountId,
    pub collateral_asset: AccountId,
    pub deposit_asset: AccountId,
    pub denomination_asset: SymbolId,
    pub min_deposit: u128,
    /// The part of a liquidation's profit that goes to the treasury (from
    /// which the liquidator is paid).
    pub treasury_share: Vec<u32>,
    /// The part of the treasury's profit that goes to the liquidator.
    pub liquidator_share: Vec<u32>,
    pub governance_token: AccountId,
    pub oracle_contract: AccountId,
}

/// The pool's running statistics.
#[derive(Clone, Copy, Debug, PartialEq, Eq, Structural)]
pub struct CoreStats {
    /// The number of open deposits.
    pub total_deposits: u128,
    /// The value deposited since inception.
    pub lifetime_deposited: u128,
    /// The value currently deposited and not yet used in liquidations.
    pub current_deposited: u128,
    /// The collateral gained above what was paid for, since inception.
    pub lifetime_profit: u128,
    /// The collateral kept for depositors, since inception.
    pub lifetime_liquidated: u128,
    /// The index the next liquidation will be recorded under.
    pub liquidation_index: u64,
    pub rewards_factor: u128,
    pub total_shares: u128,
    /// The value of one share, scaled by `SCALE`.
    pub share_price: u128,
}

#[derive(Clone, Copy, Debug, PartialEq, Eq, Structural)]
pub enum CoreStorageKeys {
    CoreState,
    CoreStats,
    LastGovernanceTokenDistribution,
}

/// A depositor's deposit.
#[derive(Clone, Copy, Debug, PartialEq, Eq, Structural)]
pub struct Deposit {
    pub depositor: AccountId,
    pub amount: u128,
    pub last_deposit: u64,
    pub shares: u128,
    pub share_price_paid: u128,
    /// The first liquidation whose collateral the deposit has not claimed.
    pub liquidation_index: u64,
}

#[derive(Clone, Copy, Debug, PartialEq, Eq, Structural)]
pub enum DepositsDataKeys {
    Deposit(AccountId),
    Depositors,
}

/// The record of a liquidation, from which depositors claim collateral.
#[derive(Clone, Copy, Debug, PartialEq, Eq, Structural)]
pub struct Liquidation {
    pub index: u64,
    pub total_deposits: u128,
    pub total_debt_paid: u128,
    pub total_col_liquidated: u128,
    /// The collateral still to be claimed.
    pub col_to_withdraw: u128,
    pub share_price: u128,
    pub total_shares: u128,
    pub shares_redeemed: u128,
}

#[derive(Clone, Copy, Debug, PartialEq, Eq, Structural)]
pub enum LiquidationsDataKeys {
    Liquidation(u64),
}

/// How long a deposit stays locked, in seconds.
pub const LOCK_PERIOD: u64 = 172800;

/// The most liquidation records fetched at once.
pub const MAX_LIQUIDATIONS_FETCHED: usize = 10;

// ---------------------------------------------------------------------------
// Depositors list
// ---------------------------------------------------------------------------

/// The list left by walking the list `snapshot` as it was given from position `i`
/// and removing, at each position where `snapshot` holds `depositor`, the
/// element at that position of the list as it stands then.
pub open spec fn remove_walk(snapshot: Seq<AccountId>, cur: Seq<AccountId>, i: int, depositor: AccountId) -> Seq<
    AccountId,
>
    decreases snapshot.len() - i,
{
    if i < 0 || i >= snapshot.len() {
        cur
    } else if snapshot[i] == depositor && i < cur.len() {
        remove_walk(snapshot, cur.remove(i), i + 1, depositor)
    } else {
        remove_walk(snapshot, cur, i + 1, depositor)
    }
}

/// Whether `depositor` is in the list.
pub fn is_depositor_listed(records: &Vec<AccountId>, depositor: &AccountId) -> (listed: bool)
    ensures
        listed == records@.contains(*depositor),
{
    let mut saved: bool = false;
    let mut i: usize = 0;
    while i < records.len()
        invariant
            i <= records.len(),
            saved == exists|j: int| 0 <= j < i && (#[trigger] records@[j]) == *depositor,
        decreases records.len() - i,
    {
        if *depositor == records[i] {
            saved = true;
        }
        i = i + 1;
    }
    saved
}

proof fn lemma_remove_walk_absent(snapshot: Seq<AccountId>, cur: Seq<AccountId>, i: int, depositor: AccountId)
    requires
        0 <= i,
        forall|j: int| i <= j < snapshot.len() ==> snapshot[j] != depositor,
    ensures
        remove_walk(snapshot, cur, i, depositor) == cur,
    decreases snapshot.len() - i,
{
    if i < snapshot.len() {
        lemma_remove_walk_absent(snapshot, cur, i + 1, depositor);
    }
}

/// Without duplicates in the list, the walk removes exactly the entry of
/// `depositor`.
proof fn lemma_remove_walk_unique(s: Seq<AccountId>, depositor: AccountId)
    requires
        s.no_duplicates(),
    ensures
        remove_walk(s, s, 0, depositor) == s.filter(|x: AccountId| x != depositor),
{
    let f = |x: AccountId| x != depositor;
    if s.contains(depositor) {
        let k = s.index_of(depositor);
        lemma_remove_walk_skip(s, s, 0, k, depositor);
        let r = s.remove(k);
        assert forall|j: int| k + 1 <= j < s.len() implies s[j] != depositor by {
            if s[j] == depositor {
                assert(s[j] == s[k]);
            }
        }
        lemma_remove_walk_absent(s, r, k + 1, depositor);
        lemma_filter_remove_unique(s, k, depositor);
    } else {
        lemma_remove_walk_absent(s, s, 0, depositor);
        lemma_filter_none(s, depositor);
    }
}

proof fn lemma_remove_walk_skip(
    snapshot: Seq<AccountId>,
    cur: Seq<AccountId>,
    i: int,
    k: int,
    depositor: AccountId,
)
    requires
        0 <= i <= k < snapshot.len(),
        snapshot[k] == depositor,
        k < cur.len(),
        forall|j: int| i <= j < k ==> snapshot[j] != depositor,
    ensures
        remove_walk(snapshot, cur, i, depositor) == remove_walk(
            snapshot,
            cur.remove(k),
            k + 1,
            depositor,
        ),
    decreases k - i,
{
    if i < k {
        lemma_remove_walk_skip(snapshot, cur, i + 1, k, depositor);
    }
}

proof fn lemma_filter_none(s: Seq<AccountId>, depositor: AccountId)
    requires
        !s.contains(depositor),
    ensures
        s.filter(|x: AccountId| x != depositor) == s,
    decreases s.len(),
{
    reveal(Seq::filter);
    if s.len() > 0 {
        assert(!s.drop_last().contains(depositor)) by {
            if s.drop_last().contains(depositor) {
                let j = choose|j: int| 0 <= j < s.drop_last().len() && s.drop_last()[j] == depositor;
                assert(s[j] == depositor);
            }
        }
        lemma_filter_none(s.drop_last(), depositor);
        assert(s.last() != depositor) by {
            assert(s[s.len() - 1] == s.last());
        }
        assert(s.drop_last().push(s.last()) =~= s);
    }
}

proof fn lemma_filter_remove_unique(s: Seq<AccountId>, k: int, depositor: AccountId)
    requires
        s.no_duplicates(),
        0 <= k < s.len(),
        s[k] == depositor,
    ensures
        s.filter(|x: AccountId| x != depositor) == s.remove(k),
    decreases s.len(),
{
    reveal(Seq::filter);
    let f = |x: AccountId| x != depositor;
    if k == s.len() - 1 {
        assert(!s.drop_last().contains(depositor)) by {
            if s.drop_last().contains(depositor) {
                let j = choose|j: int| 0 <= j < s.drop_last().len() && s.drop_last()[j] == depositor;
                assert(s[j] == s[k]);
            }
        }
        lemma_filter_none(s.drop_last(), depositor);
        assert(s.remove(k) =~= s.drop_last());
    } else {
        let t = s.drop_last();
        assert(t.no_duplicates());
        assert(t[k] == depositor);
        lemma_filter_remove_unique(t, k, depositor);
        assert(s.last() != depositor) by {
            assert(s[s.len() - 1] == s.last());
        }
        assert(s.remove(k) =~= t.remove(k).push(s.last()));
    }
}

/// The list without the given depositor. The given list is walked by
/// position and each position that holds `depositor` is removed from the
/// list being built; on a list without duplicates this removes exactly
/// `depositor`.
pub fn remove_depositor_from_depositors(depositors: &Vec<AccountId>, depositor: &AccountId) -> (updated: Vec<
    AccountId,
>)
    ensures
        updated@ == remove_walk(depositors@, depositors@, 0, *depositor),
        depositors@.no_duplicates() ==> updated@ == depositors@.filter(
            |x: AccountId| x != *depositor,
        ),
        !depositors@.contains(*depositor) ==> updated@ == depositors@,
{
    let mut updated_record: Vec<AccountId> = Vec::new();
    let mut k: usize = 0;
    while k < depositors.len()
        invariant
            k <= depositors.len(),
            updated_record@ == depositors@.take(k as int),
        decreases depositors.len() - k,
    {
        updated_record.push(depositors[k]);
        k = k + 1;
        assert(updated_record@ =~= depositors@.take(k as int));
    }
    assert(depositors@.take(k as int) =~= depositors@);
    let mut i: usize = 0;
    while i < depositors.len()
        invariant
            i <= depositors.len(),
            remove_walk(depositors@, depositors@, 0, *depositor) == remove_walk(
                depositors@,
                updated_record@,
                i as int,
                *depositor,
            ),
        decreases depositors.len() - i,
    {
        if *depositor == depositors[i] && i < updated_record.len() {
            updated_record.remove(i);
        }
        i = i + 1;
    }
    proof {
        if depositors@.no_duplicates() {
            lemma_remove_walk_unique(depositors@, *depositor);
        }
        if !depositors@.contains(*depositor) {
            assert forall|j: int| 0 <= j < depositors@.len() implies depositors@[j] != *depositor by {
                if depositors@[j] == *depositor {
                    assert(depositors@.contains(*depositor));
                }
            }
            lemma_remove_walk_absent(depositors@, depositors@, 0, *depositor);
        }
    }
    updated_record
}


// ---------------------------------------------------------------------------
// Deposits and withdrawals
// ---------------------------------------------------------------------------

/// The shares a deposit of `amount` buys at `share_price`.
pub open spec fn shares_for(amount: u128, share_price: u128) -> int {
    amount * SCALE / (share_price as int)
}

/// The stablecoins a deposit's shares are worth when withdrawn.
pub open spec fn stable_value(shares: u128, current_deposited: u128, total_shares: u128) -> int {
    shares * current_deposited / (total_shares as int)
}

/// The first check that refuses a deposit, if any.
pub open spec fn deposit_error(min_deposit: u128, has_deposit: bool, amount: u128) -> Option<SCErrors> {
    if amount < min_deposit {
        Some(SCErrors::BelowMinDeposit)
    } else if has_deposit {
        Some(SCErrors::DepositAlreadyCreated)
    } else {
        None
    }
}

/// The first check that refuses a withdrawal of deposited stablecoins, if
/// any: the deposit must exist, have claimed the collateral of every
/// liquidation and have been locked for `LOCK_PERIOD`.
pub open spec fn withdraw_error(stats: CoreStats, deposit: Option<Deposit>, now: u64) -> Option<SCErrors> {
    match deposit {
        None => Some(SCErrors::DepositDoesntExist),
        Some(d) => if d.liquidation_index < stats.liquidation_index {
            Some(SCErrors::CollateralAvailable)
        } else if now < d.last_deposit + LOCK_PERIOD {
            Some(SCErrors::LockedPeriodUncompleted)
        } else {
            None
        },
    }
}

/// What a successful deposit writes: the new deposit, the depositors list and
/// the statistics.
pub struct DepositOutcome {
    pub deposit: Deposit,
    pub depositors: Vec<AccountId>,
    pub stats: CoreStats,
}

/// What a successful withdrawal writes and pays: the stablecoins to give
/// back, the statistics and the depositors list.
pub struct StableWithdrawal {
    pub amount: u128,
    pub stats: CoreStats,
    pub depositors: Vec<AccountId>,
}

proof fn lemma_share_of_total(shares: int, current: int, total: int)
    requires
        0 <= shares <= total,
        0 < total,
        0 <= current,
    ensures
        0 <= shares * current / total <= current,
{
    assert(shares * current <= total * current) by (nonlinear_arith)
        requires
            0 <= shares <= total,
            0 <= current,
    ;
    assert(0 <= shares * current) by (nonlinear_arith)
        requires
            0 <= shares,
            0 <= current,
    ;
    assert(shares * current / total <= total * current / total) by (nonlinear_arith)
        requires
            shares * current <= total * current,
            0 < total,
    ;
    assert(total * current / total == current) by (nonlinear_arith)
        requires
            0 < total,
    ;
    assert(0 <= shares * current / total) by (nonlinear_arith)
        requires
            0 <= shares * current,
            0 < total,
    ;
}

// ---------------------------------------------------------------------------
// Claims of liquidated collateral
// ---------------------------------------------------------------------------

/// The part of a liquidation's unclaimed collateral that `shares` claim: the
/// shares' fraction of the shares not yet redeemed.
pub open spec fn col_share(r: Liquidation, shares: u128) -> int {
    r.col_to_withdraw * (shares * SCALE / (r.total_shares - r.shares_redeemed)) / (SCALE as int)
}

/// The part of a liquidation's paid debt that `shares` covered: the shares'
/// fraction of all the shares at the liquidation.
pub open spec fn debt_share(r: Liquidation, shares: u128) -> int {
    r.total_debt_paid * (shares * SCALE / (r.total_shares as int)) / (SCALE as int)
}

/// A liquidation record after `shares` have claimed their part.
pub open spec fn claimed(r: Liquidation, shares: u128) -> Liquidation {
    Liquidation {
        shares_redeemed: (r.shares_redeemed + shares) as u128,
        col_to_withdraw: (r.col_to_withdraw - col_share(r, shares)) as u128,
        ..r
    }
}

/// Every quantity of one claim step fits in a `u128`.
pub open spec fn step_fits(r: Liquidation, shares: u128, col: int, debt: int) -> bool {
    let left = r.total_shares - r.shares_redeemed;
    &&& shares * SCALE <= u128::MAX
    &&& r.col_to_withdraw * (shares * SCALE / left) <= u128::MAX
    &&& r.total_debt_paid * (shares * SCALE / (r.total_shares as int)) <= u128::MAX
    &&& r.shares_redeemed + shares <= u128::MAX
    &&& col_share(r, shares) <= r.col_to_withdraw
    &&& col + col_share(r, shares) <= u128::MAX
    &&& debt + debt_share(r, shares) <= u128::MAX
}

/// Where a walk over the liquidation records a deposit claims ends.
pub enum ColWalk {
    /// Some quantity leaves the `u128` range.
    Overflow,
    /// A record has no shares left to redeem.
    Unexpected,
    /// The walk stops with the collateral and debt gathered, after claiming
    /// the first `processed` records.
    Done(int, int, nat),
}

/// The claim of a deposit of `amount` holding `shares` on the records from
/// position `k`, having gathered `col` collateral and covered `debt` so far.
/// The walk stops after the last record, or as soon as the covered debt
/// reaches the deposit (or falls short of it by less than one unit).
pub open spec fn col_walk(
    recs: Seq<Liquidation>,
    k: int,
    shares: u128,
    amount: u128,
    col: int,
    debt: int,
) -> ColWalk
    decreases recs.len() - k,
{
    if k < 0 || k >= recs.len() {
        ColWalk::Done(col, debt, if k < 0 { 0 } else { k as nat })
    } else {
        let r = recs[k];
        if r.shares_redeemed > r.total_shares {
            ColWalk::Overflow
        } else if r.total_shares - r.shares_redeemed == 0 {
            ColWalk::Unexpected
        } else if !step_fits(r, shares, col, debt) {
            ColWalk::Overflow
        } else {
            let col2 = col + col_share(r, shares);
            let debt2 = debt + debt_share(r, shares);
            if debt2 >= amount || amount - debt2 < SCALE {
                ColWalk::Done(col2, debt2, (k + 1) as nat)
            } else {
                col_walk(recs, k + 1, shares, amount, col2, debt2)
            }
        }
    }
}

/// The last liquidation a claim reaches: at most ten past the deposit's
/// first unclaimed one, and never past the last recorded one.
pub open spec fn claim_target(deposit_index: u64, current_index: u64) -> int {
    if deposit_index + 10 > current_index - 1 {
        current_index - 1
    } else {
        deposit_index + 10
    }
}

/// How many records a claim from `deposit_index` reads.
pub open spec fn claim_count(deposit_index: u64, current_index: u64) -> int {
    let target = claim_target(deposit_index, current_index);
    if deposit_index <= target {
        target - deposit_index + 1
    } else {
        0
    }
}

/// The first check that refuses a claim of collateral, if any.
pub open spec fn withdraw_col_error(stats: CoreStats, deposit: Option<Deposit>) -> Option<SCErrors> {
    match deposit {
        None => Some(SCErrors::DepositDoesntExist),
        Some(d) => if d.liquidation_index == stats.liquidation_index {
            Some(SCErrors::NoCollateralAvailable)
        } else {
            None
        },
    }
}

/// What a successful claim of collateral writes and pays: the collateral to
/// give the depositor, the deposit (now up to date with the liquidations)
/// and the liquidation records read, updated.
pub struct CollateralClaim {
    pub collateral: u128,
    pub deposit: Deposit,
    pub records: Vec<Liquidation>,
}

/// A copy of a list of liquidation records.
fn copy_records(records: &Vec<Liquidation>) -> (copy: Vec<Liquidation>)
    ensures
        copy@ == records@,
{
    let mut copy: Vec<Liquidation> = Vec::new();
    let mut i: usize = 0;
    while i < records.len()
        invariant
            i <= records.len(),
            copy@ == records@.take(i as int),
        decreases records.len() - i,
    {
        copy.push(records[i]);
        i = i + 1;
        assert(copy@ =~= records@.take(i as int));
    }
    assert(records@.take(i as int) =~= records@);
    copy
}

/// The last liquidation index a claim of collateral from `deposit_index`
/// reads (see `claim_target`).
pub fn withdraw_col_target(deposit_index: u64, current_index: u64) -> (target: u64)
    requires
        deposit_index + 10 <= u64::MAX,
        current_index >= 1,
    ensures
        target == claim_target(deposit_index, current_index),
{
    if deposit_index + 10 > current_index - 1 {
        current_index - 1
    } else {
        deposit_index + 10
    }
}

/// The fraction, scaled by `SCALE`, of a liquidation that `shares` own
/// among the shares not yet redeemed.
pub open spec fn owned_fraction(r: Liquidation, shares: u128) -> int {
    shares * SCALE / (r.total_shares - r.shares_redeemed)
}

/// The part of a liquidation's unclaimed collateral that `shares` own.
pub open spec fn owned_col(r: Liquidation, shares: u128) -> int {
    r.col_to_withdraw * owned_fraction(r, shares) / (SCALE as int)
}

/// The part of a liquidation's paid debt that `shares` own.
pub open spec fn owned_debt(r: Liquidation, shares: u128) -> int {
    r.total_debt_paid * owned_fraction(r, shares) / (SCALE as int)
}

/// A liquidation record once `shares` have been redeemed from it.
pub open spec fn redeemed(r: Liquidation, shares: u128) -> Liquidation {
    Liquidation { shares_redeemed: (r.shares_redeemed + shares) as u128, ..r }
}

/// Every quantity of one step of `owned_walk` fits in a `u128`.
pub open spec fn owned_step_fits(r: Liquidation, shares: u128, col: int, debt: int) -> bool {
    &&& shares * SCALE <= u128::MAX
    &&& r.col_to_withdraw * owned_fraction(r, shares) <= u128::MAX
    &&& r.total_debt_paid * owned_fraction(r, shares) <= u128::MAX
    &&& r.shares_redeemed + shares <= u128::MAX
    &&& col + owned_col(r, shares) <= u128::MAX
    &&& debt + owned_debt(r, shares) <= u128::MAX
}

/// The claim of a deposit of `amount` holding `shares` on the records from
/// position `k`, each reckoned on the shares not yet redeemed from it. The
/// walk stops after the last record, or as soon as the debt covered reaches
/// the deposit (or falls short of it by less than one unit).
pub open spec fn owned_walk(
    recs: Seq<Liquidation>,
    k: int,
    shares: u128,
    amount: u128,
    col: int,
    debt: int,
) -> ColWalk
    decreases recs.len() - k,
{
    if k < 0 || k >= recs.len() {
        ColWalk::Done(col, debt, if k < 0 { 0 } else { k as nat })
    } else {
        let r = recs[k];
        if r.shares_redeemed > r.total_shares {
            ColWalk::Overflow
        } else if r.total_shares - r.shares_redeemed == 0 {
            ColWalk::Unexpected
        } else if !owned_step_fits(r, shares, col, debt) {
            ColWalk::Overflow
        } else {
            let col2 = col + owned_col(r, shares);
            let debt2 = debt + owned_debt(r, shares);
            if debt2 >= amount || amount - debt2 < SCALE {
                ColWalk::Done(col2, debt2, (k + 1) as nat)
            } else {
                owned_walk(recs, k + 1, shares, amount, col2, debt2)
            }
        }
    }
}

/// The collateral a deposit owns in the liquidations recorded from its first
/// unclaimed one: `records` are those stored at consecutive indexes from
/// `deposit.liquidation_index` up to the first index that holds none. Gives
/// back the collateral (to be transferred to the depositor) and the records,
/// those walked over with the deposit's shares redeemed (to be saved).
pub fn withdraw_collateral(deposit: &Deposit, records: &Vec<Liquidation>) -> (r: (
    u128,
    Vec<Liquidation>,
))
    requires
        owned_walk(records@, 0, deposit.shares, deposit.amount, 0, 0) is Done,
    ensures
        ({
            let w = owned_walk(records@, 0, deposit.shares, deposit.amount, 0, 0);
            &&& r.0 == w->0
            &&& r.1@.len() == records@.len()
            &&& w->2 <= records@.len()
            &&& forall|j: int|
                0 <= j < w->2 ==> #[trigger] r.1@[j] == redeemed(records@[j], deposit.shares)
            &&& forall|j: int| w->2 <= j < records@.len() ==> #[trigger] r.1@[j] == records@[j]
        }),
{
    let shares: u128 = deposit.shares;
    let amount: u128 = deposit.amount;
    let ghost walk0 = owned_walk(records@, 0, shares, amount, 0, 0);
    let mut col_to_withdraw: u128 = 0;
    let mut total_debt_covered: u128 = 0;
    let mut out: Vec<Liquidation> = copy_records(records);
    let mut k: usize = 0;
    let mut finished: bool = false;
    while k < records.len() && !finished
        invariant
            k <= records@.len(),
            out@.len() == records@.len(),
            shares == deposit.shares,
            amount == deposit.amount,
            walk0 is Done,
            walk0 == owned_walk(records@, 0, shares, amount, 0, 0),
            forall|j: int| 0 <= j < k ==> #[trigger] out@[j] == redeemed(records@[j], shares),
            forall|j: int| k <= j < records@.len() ==> #[trigger] out@[j] == records@[j],
            !finished ==> walk0 == owned_walk(
                records@,
                k as int,
                shares,
                amount,
                col_to_withdraw as int,
                total_debt_covered as int,
            ),
            finished ==> walk0 == ColWalk::Done(
                col_to_withdraw as int,
                total_debt_covered as int,
                k as nat,
            ),
        decreases records@.len() - k,
    {
        let rec: Liquidation = records[k];
        let shares_left: u128 = rec.total_shares - rec.shares_redeemed;
        let percentage_owned: u128 = div_floor(shares * SCALE, shares_left);
        let share_of_col_liquidated: u128 = div_floor(rec.col_to_withdraw * percentage_owned, SCALE);
        let share_of_debt_paid: u128 = div_floor(rec.total_debt_paid * percentage_owned, SCALE);
        let updated = Liquidation { shares_redeemed: rec.shares_redeemed + shares, ..rec };
        out.set(k, updated);
        col_to_withdraw = col_to_withdraw + share_of_col_liquidated;
        total_debt_covered = total_debt_covered + share_of_debt_paid;
        k = k + 1;
        if total_debt_covered >= amount || (amount - total_debt_covered) < SCALE {
            finished = true;
        }
    }
    (col_to_withdraw, out)
}

// ---------------------------------------------------------------------------
// Liquidations
// ---------------------------------------------------------------------------

/// The vaults the pool can pay off, taken in order while their debts still
/// fit in `limit`: how many, and their total debt.
pub open spec fn greedy_from(vaults: Seq<Vault>, i: int, acc: int, limit: int) -> (nat, int)
    decreases vaults.len() - i,
{
    if i < 0 || i >= vaults.len() {
        (0, acc)
    } else if acc + vaults[i].total_debt <= limit {
        let rest = greedy_from(vaults, i + 1, acc + vaults[i].total_debt, limit);
        (rest.0 + 1, rest.1)
    } else {
        (0, acc)
    }
}

/// The running totals of the greedy choice stay within `u128`.
pub open spec fn greedy_fits(vaults: Seq<Vault>, i: int, acc: int, limit: int) -> bool
    decreases vaults.len() - i,
{
    if i < 0 || i >= vaults.len() {
        true
    } else if acc + vaults[i].total_debt > u128::MAX {
        false
    } else if acc + vaults[i].total_debt <= limit {
        greedy_fits(vaults, i + 1, acc + vaults[i].total_debt, limit)
    } else {
        true
    }
}

/// The total debt of a list of vaults.
pub open spec fn sum_debt(vaults: Seq<Vault>) -> int
    decreases vaults.len(),
{
    if vaults.len() == 0 {
        0
    } else {
        sum_debt(vaults.drop_last()) + vaults.last().total_debt
    }
}

/// The total collateral of a list of vaults.
pub open spec fn sum_collateral(vaults: Seq<Vault>) -> int
    decreases vaults.len(),
{
    if vaults.len() == 0 {
        0
    } else {
        sum_collateral(vaults.drop_last()) + vaults.last().total_collateral
    }
}

/// The collateral that the paid debt is worth at the oracle's price.
pub open spec fn collateral_paid_for(debt: int, rate: u128) -> int {
    debt * SCALE / (rate as int)
}

/// The collateral received above what the debt was worth (nothing when the
/// liquidation lost value).
pub open spec fn collateral_gained(received: int, paid_for: int) -> int {
    if paid_for > received {
        0
    } else {
        received - paid_for
    }
}

/// `amount` times the fraction `fraction[0] / fraction[1]`, rounded down.
pub open spec fn fraction_of(amount: int, fraction: Seq<u32>) -> int {
    amount * fraction[0] / (fraction[1] as int)
}

/// The quantities of the settlement of a liquidation.
pub open spec fn settle_debt(vaults: Seq<Vault>) -> int {
    sum_debt(vaults)
}

pub open spec fn settle_gained(vaults: Seq<Vault>, rate_price: i128) -> int {
    collateral_gained(
        sum_collateral(vaults),
        collateral_paid_for(sum_debt(vaults), rate_price as u128),
    )
}

pub open spec fn settle_shareable(core: CoreState, vaults: Seq<Vault>, rate_price: i128) -> int {
    fraction_of(settle_gained(vaults, rate_price), core.treasury_share@)
}

pub open spec fn settle_liquidator(core: CoreState, vaults: Seq<Vault>, rate_price: i128) -> int {
    fraction_of(settle_shareable(core, vaults, rate_price), core.liquidator_share@)
}

pub open spec fn settle_kept(core: CoreState, vaults: Seq<Vault>, rate_price: i128) -> int {
    sum_collateral(vaults) - settle_shareable(core, vaults, rate_price)
}

/// Every quantity of a liquidation's split of the collateral stays within
/// its integer type, and no division is by zero.
pub open spec fn parts_fit(core: CoreState, vaults: Seq<Vault>, rate_price: i128) -> bool {
    let debt = sum_debt(vaults);
    let gained = settle_gained(vaults, rate_price);
    let shareable = settle_shareable(core, vaults, rate_price);
    let liquidator = settle_liquidator(core, vaults, rate_price);
    &&& debt <= u128::MAX
    &&& sum_collateral(vaults) <= u128::MAX
    &&& debt * SCALE <= u128::MAX
    &&& rate_price as u128 != 0
    &&& core.treasury_share@.len() >= 2
    &&& core.treasury_share@[1] != 0
    &&& gained * core.treasury_share@[0] <= u128::MAX
    &&& core.liquidator_share@.len() >= 2
    &&& core.liquidator_share@[1] != 0
    &&& shareable * core.liquidator_share@[0] <= u128::MAX
    &&& liquidator <= shareable
    &&& shareable <= sum_collateral(vaults)
}

/// Every quantity of the settlement stays within its integer type, and no
/// division is by zero.
pub open spec fn settlement_fits(
    core: CoreState,
    stats: CoreStats,
    vaults: Seq<Vault>,
    rate_price: i128,
) -> bool {
    let debt = sum_debt(vaults);
    let gained = settle_gained(vaults, rate_price);
    let kept = settle_kept(core, vaults, rate_price);
    &&& vaults.len() <= usize::MAX
    &&& parts_fit(core, vaults, rate_price)
    &&& debt <= stats.current_deposited
    &&& stats.current_deposited != 0
    &&& (stats.current_deposited - debt) * stats.share_price <= u128::MAX
    &&& stats.lifetime_profit + gained <= u128::MAX
    &&& stats.lifetime_liquidated + kept <= u128::MAX
    &&& stats.liquidation_index + 1 <= u64::MAX
}

/// The quantities of a liquidation's split of the collateral.
pub struct SettlementParts {
    pub debt: u128,
    pub collateral: u128,
    pub gained: u128,
    pub shareable: u128,
    pub liquidator: u128,
    pub kept: u128,
}

/// The split of the collateral of `vaults` liquidated at `rate_price`, when
/// every quantity of it fits (see `parts_fit`); `None` otherwise.
pub fn settlement_parts(core: &CoreState, vaults: &Vec<Vault>, rate_price: i128) -> (r: Option<
    SettlementParts,
>)
    ensures
        r is Some <==> parts_fit(*core, vaults@, rate_price),
        r matches Some(p) ==> {
            &&& p.debt == sum_debt(vaults@)
            &&& p.collateral == sum_collateral(vaults@)
            &&& p.gained == settle_gained(vaults@, rate_price)
            &&& p.shareable == settle_shareable(*core, vaults@, rate_price)
            &&& p.liquidator == settle_liquidator(*core, vaults@, rate_price)
            &&& p.kept == settle_kept(*core, vaults@, rate_price)
        },
{
    let ghost v = vaults@;
    let mut debt: u128 = 0;
    let mut col: u128 = 0;
    let mut i: usize = 0;
    while i < vaults.len()
        invariant
            i <= v.len(),
            v == vaults@,
            debt == sum_debt(v.take(i as int)),
            col == sum_collateral(v.take(i as int)),
        decreases v.len() - i,
    {
        proof {
            lemma_sum_prefix(v, i + 1);
            assert(v.take(i + 1).drop_last() =~= v.take(i as int));
        }
        let d: u128 = vaults[i].total_debt;
        let c: u128 = vaults[i].total_collateral;
        if d > u128::MAX - debt || c > u128::MAX - col {
            return None;
        }
        debt = debt + d;
        col = col + c;
        i = i + 1;
    }
    assert(v.take(i as int) =~= v);
    let scaled: u128 = match debt.checked_mul(SCALE) {
        Some(x) => x,
        None => {
            return None;
        },
    };
    let rate: u128 = rate_price as u128;
    if rate == 0 || core.treasury_share.len() < 2 || core.treasury_share[1] == 0 {
        return None;
    }
    let paid_for: u128 = div_floor(scaled, rate);
    let gained: u128 = if paid_for > col {
        0
    } else {
        col - paid_for
    };
    let gained_part: u128 = match gained.checked_mul(core.treasury_share[0] as u128) {
        Some(x) => x,
        None => {
            return None;
        },
    };
    let shareable: u128 = div_floor(gained_part, core.treasury_share[1] as u128);
    if core.liquidator_share.len() < 2 || core.liquidator_share[1] == 0 {
        return None;
    }
    let shareable_part: u128 = match shareable.checked_mul(core.liquidator_share[0] as u128) {
        Some(x) => x,
        None => {
            return None;
        },
    };
    let liquidator: u128 = div_floor(shareable_part, core.liquidator_share[1] as u128);
    if liquidator > shareable || shareable > col {
        return None;
    }
    Some(
        SettlementParts {
            debt,
            collateral: col,
            gained,
            shareable,
            liquidator,
            kept: col - shareable,
        },
    )
}

/// Whether a liquidation can be settled without leaving an integer range
/// (see `settlement_fits`).
pub fn can_settle(core: &CoreState, stats: CoreStats, vaults: &Vec<Vault>, rate_price: i128) -> (ok:
    bool)
    ensures
        ok == settlement_fits(*core, stats, vaults@, rate_price),
{
    let count: usize = vaults.len();
    assert(vaults@.len() == count);
    match settlement_parts(core, vaults, rate_price) {
        None => false,
        Some(p) => {
            p.debt <= stats.current_deposited && stats.current_deposited != 0 && (
            stats.current_deposited - p.debt).checked_mul(stats.share_price).is_some()
                && stats.lifetime_profit.checked_add(p.gained).is_some()
                && stats.lifetime_liquidated.checked_add(p.kept).is_some()
                && stats.liquidation_index < u64::MAX
        },
    }
}

/// Whether the running totals of the choice of vaults to pay off stay
/// within `u128` (see `greedy_fits`).
pub fn selection_fits(vaults: &Vec<Vault>, limit: u128) -> (ok: bool)
    ensures
        ok == greedy_fits(vaults@, 0, 0, limit as int),
{
    let mut acc: u128 = 0;
    let mut i: usize = 0;
    while i < vaults.len()
        invariant
            i <= vaults@.len(),
            greedy_fits(vaults@, 0, 0, limit as int) == greedy_fits(
                vaults@,
                i as int,
                acc as int,
                limit as int,
            ),
        decreases vaults@.len() - i,
    {
        let debt: u128 = vaults[i].total_debt;
        if debt > u128::MAX - acc {
            return false;
        }
        if acc + debt <= limit {
            acc = acc + debt;
            i = i + 1;
        } else {
            return true;
        }
    }
    true
}

/// What the settlement of a liquidation pays and writes: the liquidator's
/// and the treasury's parts of the profit (in collateral), the record of the
/// liquidation and the statistics.
pub struct LiquidationSettlement {
    pub liquidator_share: u128,
    pub treasury_share: u128,
    pub liquidation: Liquidation,
    pub stats: CoreStats,
}

proof fn lemma_sum_prefix(s: Seq<Vault>, i: int)
    requires
        0 <= i <= s.len(),
    ensures
        0 <= sum_debt(s.take(i)) <= sum_debt(s),
        0 <= sum_collateral(s.take(i)) <= sum_collateral(s),
    decreases s.len(),
{
    if s.len() > 0 {
        if i == s.len() {
            assert(s.take(i) =~= s);
            lemma_sum_prefix(s.drop_last(), i - 1);
        } else {
            assert(s.drop_last().take(i) =~= s.take(i));
            lemma_sum_prefix(s.drop_last(), i);
        }
    } else {
        assert(s.take(i) =~= s);
    }
}

/// The safety pool contract. Each method takes what the contract reads from
/// its storage, the ledger and the contracts it calls, and gives back what
/// it writes or the error it raises; authorisation, token transfers and
/// calls to other contracts are left to the host.
pub struct SafetyPoolContract;

impl SafetyPoolContract {
    /// The initial configuration and statistics; refused once initialised.
    /// Both shares start at one half.
    pub fn init(
        already_initiated: bool,
        admin: AccountId,
        vaults_contract: AccountId,
        treasury_contract: AccountId,
        collateral_asset: AccountId,
        deposit_asset: AccountId,
        denomination_asset: SymbolId,
        min_deposit: u128,
        governance_token: AccountId,
        oracle_contract: AccountId,
    ) -> (r: Result<(CoreState, CoreStats), SCErrors>)
        ensures
            already_initiated ==> (r matches Err(e) && e == SCErrors::ContractAlreadyInitiated),
            !already_initiated ==> (r matches Ok((core, stats)) && {
                &&& core.admin == admin
                &&& core.vaults_contract == vaults_contract
                &&& core.treasury_contract == treasury_contract
                &&& core.collateral_asset == collateral_asset
                &&& core.deposit_asset == deposit_asset
                &&& core.denomination_asset == denomination_asset
                &&& core.min_deposit == min_deposit
                &&& core.treasury_share@ == seq![1u32, 2u32]
                &&& core.liquidator_share@ == seq![1u32, 2u32]
                &&& core.governance_token == governance_token
                &&& core.oracle_contract == oracle_contract
                &&& stats == CoreStats {
                    total_deposits: 0,
                    lifetime_deposited: 0,
                    current_deposited: 0,
                    lifetime_profit: 0,
                    lifetime_liquidated: 0,
                    liquidation_index: 0,
                    rewards_factor: 0,
                    total_shares: 0,
                    share_price: SCALE,
                }
            }),
    {
        if already_initiated {
            return Err(SCErrors::ContractAlreadyInitiated);
        }
        let mut treasury_share: Vec<u32> = Vec::new();
        treasury_share.push(1);
        treasury_share.push(2);
        let mut liquidator_share: Vec<u32> = Vec::new();
        liquidator_share.push(1);
        liquidator_share.push(2);
        assert(treasury_share@ =~= seq![1u32, 2u32]);
        assert(liquidator_share@ =~= seq![1u32, 2u32]);
        Ok(
            (
                CoreState {
                    admin,
                    vaults_contract,
                    treasury_contract,
                    collateral_asset,
                    deposit_asset,
                    denomination_asset,
                    min_deposit,
                    treasury_share,
                    liquidator_share,
                    governance_token,
                    oracle_contract,
                },
                CoreStats {
                    total_deposits: 0,
                    lifetime_deposited: 0,
                    current_deposited: 0,
                    lifetime_profit: 0,
                    lifetime_liquidated: 0,
                    liquidation_index: 0,
                    rewards_factor: 0,
                    total_shares: 0,
                    share_price: SCALE,
                },
            ),
        )
    }

    /// The configuration with a new admin.
    pub fn update_contract_admin(core: CoreState, contract_admin: AccountId) -> (updated: CoreState)
        ensures
            updated == (CoreState { admin: contract_admin, ..core }),
    {
        let mut core = core;
        core.admin = contract_admin;
        core
    }

    /// The configuration with a new vaults contract.
    pub fn update_vaults_contract(core: CoreState, vaults_contract: AccountId) -> (updated: CoreState)
        ensures
            updated == (CoreState { vaults_contract, ..core }),
    {
        let mut core = core;
        core.vaults_contract = vaults_contract;
        core
    }

    /// The configuration with a new treasury contract.
    pub fn update_treasury_contract(core: CoreState, treasury_contract: AccountId) -> (updated: CoreState)
        ensures
            updated == (CoreState { treasury_contract, ..core }),
    {
        let mut core = core;
        core.treasury_contract = treasury_contract;
        core
    }

    /// The configuration with a new minimum deposit.
    pub fn update_min_deposit(core: CoreState, min_deposit: u128) -> (updated: CoreState)
        ensures
            updated == (CoreState { min_deposit, ..core }),
    {
        let mut core = core;
        core.min_deposit = min_deposit;
        core
    }

    /// The configuration with a new treasury share.
    pub fn update_treasury_share(core: CoreState, treasury_share: Vec<u32>) -> (updated: CoreState)
        ensures
            updated == (CoreState { treasury_share, ..core }),
    {
        let mut core = core;
        core.treasury_share = treasury_share;
        core
    }

    /// The configuration with a new liquidator share.
    pub fn update_liquidator_share(core: CoreState, liquidator_share: Vec<u32>) -> (updated: CoreState)
        ensures
            updated == (CoreState { liquidator_share, ..core }),
    {
        let mut core = core;
        core.liquidator_share = liquidator_share;
        core
    }

    /// Deposits `amount` stablecoins for `caller`, who must not hold a
    /// deposit yet; the deposit buys shares at the current share price. On
    /// success the amount is to be transferred to the contract and the
    /// returned values saved.
    pub fn deposit(
        core: &CoreState,
        stats: CoreStats,
        has_deposit: bool,
        depositors: Vec<AccountId>,
        caller: AccountId,
        amount: u128,
        now: u64,
    ) -> (r: Result<DepositOutcome, SCErrors>)
        requires
            deposit_error(core.min_deposit, has_deposit, amount) is None ==> {
                &&& stats.share_price != 0
                &&& amount * SCALE <= u128::MAX
                &&& stats.total_deposits + 1 <= u128::MAX
                &&& stats.lifetime_deposited + amount <= u128::MAX
                &&& stats.current_deposited + amount <= u128::MAX
                &&& stats.total_shares + shares_for(amount, stats.share_price) <= u128::MAX
            },
        ensures
            match deposit_error(core.min_deposit, has_deposit, amount) {
                Some(e) => r matches Err(e2) && e2 == e,
                None => r matches Ok(o) && {
                    let shares = shares_for(amount, stats.share_price);
                    &&& o.deposit == Deposit {
                        depositor: caller,
                        amount,
                        last_deposit: now,
                        shares: shares as u128,
                        share_price_paid: stats.share_price,
                        liquidation_index: stats.liquidation_index,
                    }
                    &&& o.depositors@ == (if depositors@.contains(caller) {
                        depositors@
                    } else {
                        depositors@.push(caller)
                    })
                    &&& o.stats == CoreStats {
                        total_deposits: (stats.total_deposits + 1) as u128,
                        lifetime_deposited: (stats.lifetime_deposited + amount) as u128,
                        current_deposited: (stats.current_deposited + amount) as u128,
                        total_shares: (stats.total_shares + shares) as u128,
                        ..stats
                    }
                },
            },
    {
        if amount < core.min_deposit {
            return Err(SCErrors::BelowMinDeposit);
        }
        if has_deposit {
            return Err(SCErrors::DepositAlreadyCreated);
        }
        let shares_to_issue: u128 = div_floor(amount * SCALE, stats.share_price);
        let deposit = Deposit {
            depositor: caller,
            amount,
            last_deposit: now,
            shares: shares_to_issue,
            share_price_paid: stats.share_price,
            liquidation_index: stats.liquidation_index,
        };
        let mut depositors = depositors;
        if !is_depositor_listed(&depositors, &caller) {
            depositors.push(caller);
        }
        let mut stats = stats;
        stats.total_deposits = stats.total_deposits + 1;
        stats.lifetime_deposited = stats.lifetime_deposited + amount;
        stats.current_deposited = stats.current_deposited + amount;
        stats.total_shares = stats.total_shares + shares_to_issue;
        Ok(DepositOutcome { deposit, depositors, stats })
    }

    /// A stored deposit, which must exist.
    pub fn get_deposit(stored: Option<Deposit>) -> (r: Result<Deposit, SCErrors>)
        ensures
            match stored {
                Some(d) => r == Ok::<Deposit, SCErrors>(d),
                None => r == Err::<Deposit, SCErrors>(SCErrors::DepositDoesntExist),
            },
    {
        match stored {
            Some(d) => Ok(d),
            None => Err(SCErrors::DepositDoesntExist),
        }
    }

    /// Withdraws a deposit's stablecoins: its shares' part of what is
    /// currently deposited. On success the amount is to be transferred to the
    /// depositor, the deposit removed and the returned values saved.
    pub fn withdraw(
        stats: CoreStats,
        deposit: Option<Deposit>,
        depositors: &Vec<AccountId>,
        caller: AccountId,
        now: u64,
    ) -> (r: Result<StableWithdrawal, SCErrors>)
        requires
            deposit is Some && deposit->0.liquidation_index >= stats.liquidation_index
                ==> deposit->0.last_deposit + LOCK_PERIOD <= u64::MAX,
            withdraw_error(stats, deposit, now) is None ==> {
                let d = deposit->0;
                &&& 0 < stats.total_shares
                &&& d.shares <= stats.total_shares
                &&& d.shares * stats.current_deposited <= u128::MAX
                &&& stats.total_deposits >= 1
            },
        ensures
            match withdraw_error(stats, deposit, now) {
                Some(e) => r matches Err(e2) && e2 == e,
                None => r matches Ok(o) && {
                    let d = deposit->0;
                    let amount = stable_value(d.shares, stats.current_deposited, stats.total_shares);
                    &&& o.amount == amount
                    &&& amount <= stats.current_deposited
                    &&& o.stats == CoreStats {
                        current_deposited: (stats.current_deposited - amount) as u128,
                        total_shares: (stats.total_shares - d.shares) as u128,
                        total_deposits: (stats.total_deposits - 1) as u128,
                        ..stats
                    }
                    &&& o.depositors@ == remove_walk(depositors@, depositors@, 0, caller)
                },
            },
    {
        let deposit: Deposit = match Self::get_deposit(deposit) {
            Ok(d) => d,
            Err(e) => {
                return Err(e);
            },
        };
        if deposit.liquidation_index < stats.liquidation_index {
            return Err(SCErrors::CollateralAvailable);
        }
        let min_timestamp: u64 = deposit.last_deposit + LOCK_PERIOD;
        if now < min_timestamp {
            return Err(SCErrors::LockedPeriodUncompleted);
        }
        let amount: u128 = div_floor(deposit.shares * stats.current_deposited, stats.total_shares);
        proof {
            lemma_share_of_total(
                deposit.shares as int,
                stats.current_deposited as int,
                stats.total_shares as int,
            );
        }
        let mut stats = stats;
        stats.current_deposited = stats.current_deposited - amount;
        stats.total_shares = stats.total_shares - deposit.shares;
        stats.total_deposits = stats.total_deposits - 1;
        let depositors = remove_depositor_from_depositors(depositors, &caller);
        Ok(StableWithdrawal { amount, stats, depositors })
    }

    /// Claims, for a deposit, its part of the collateral of the liquidations
    /// it has not claimed yet. `records` are the records of liquidations
    /// `deposit.liquidation_index ..= withdraw_col_target(..)`, in order. On
    /// success the collateral is to be transferred to the depositor and the
    /// deposit and records saved; the deposit is marked as up to date even
    /// when the walk stopped before the last liquidation.
    pub fn withdraw_col(stats: CoreStats, deposit: Option<Deposit>, records: &Vec<Liquidation>) -> (r: Result<
        CollateralClaim,
        SCErrors,
    >)
        requires
            withdraw_col_error(stats, deposit) is None ==> {
                let d = deposit->0;
                &&& records@.len() == claim_count(d.liquidation_index, stats.liquidation_index)
                &&& !(col_walk(records@, 0, d.shares, d.amount, 0, 0) is Overflow)
            },
        ensures
            match withdraw_col_error(stats, deposit) {
                Some(e) => r matches Err(e2) && e2 == e,
                None => {
                    let d = deposit->0;
                    match col_walk(records@, 0, d.shares, d.amount, 0, 0) {
                        ColWalk::Done(col, _debt, n) => r matches Ok(o) && {
                            &&& o.collateral == col
                            &&& o.deposit == (Deposit {
                                liquidation_index: stats.liquidation_index,
                                ..d
                            })
                            &&& o.records@.len() == records@.len()
                            &&& n <= records@.len()
                            &&& forall|j: int|
                                0 <= j < n ==> #[trigger] o.records@[j] == claimed(
                                    records@[j],
                                    d.shares,
                                )
                            &&& forall|j: int|
                                n <= j < records@.len() ==> #[trigger] o.records@[j]
                                    == records@[j]
                        },
                        _ => r matches Err(e2) && e2 == SCErrors::UnexpectedError,
                    }
                },
            },
    {
        let mut dep: Deposit = match Self::get_deposit(deposit) {
            Ok(d) => d,
            Err(e) => {
                return Err(e);
            },
        };
        if dep.liquidation_index == stats.liquidation_index {
            return Err(SCErrors::NoCollateralAvailable);
        }
        let shares: u128 = dep.shares;
        let amount: u128 = dep.amount;
        let ghost walk0 = col_walk(records@, 0, shares, amount, 0, 0);
        let mut col_to_withdraw: u128 = 0;
        let mut total_debt_covered: u128 = 0;
        let mut out: Vec<Liquidation> = copy_records(records);
        let mut k: usize = 0;
        let mut finished: bool = false;
        while k < records.len() && !finished
            invariant
                k <= records@.len(),
                out@.len() == records@.len(),
                deposit == Some(dep),
                dep.liquidation_index != stats.liquidation_index,
                shares == dep.shares,
                amount == dep.amount,
                !(walk0 is Overflow),
                walk0 == col_walk(records@, 0, shares, amount, 0, 0),
                forall|j: int| 0 <= j < k ==> #[trigger] out@[j] == claimed(records@[j], shares),
                forall|j: int| k <= j < records@.len() ==> #[trigger] out@[j] == records@[j],
                !finished ==> walk0 == col_walk(
                    records@,
                    k as int,
                    shares,
                    amount,
                    col_to_withdraw as int,
                    total_debt_covered as int,
                ),
                finished ==> walk0 == ColWalk::Done(
                    col_to_withdraw as int,
                    total_debt_covered as int,
                    k as nat,
                ),
            decreases records@.len() - k,
        {
            let rec: Liquidation = records[k];
            let shares_left: u128 = rec.total_shares - rec.shares_redeemed;
            if shares_left == 0 {
                assert(col_walk(
                    records@,
                    k as int,
                    shares,
                    amount,
                    col_to_withdraw as int,
                    total_debt_covered as int,
                ) == ColWalk::Unexpected);
                return Err(SCErrors::UnexpectedError);
            }
            let percentage_of_debt_paid: u128 = div_floor(shares * SCALE, rec.total_shares);
            let percentage_col_owned: u128 = div_floor(shares * SCALE, shares_left);
            let share_of_col_liquidated: u128 = div_floor(
                rec.col_to_withdraw * percentage_col_owned,
                SCALE,
            );
            let share_of_debt_paid: u128 = div_floor(
                rec.total_debt_paid * percentage_of_debt_paid,
                SCALE,
            );
            let updated = Liquidation {
                shares_redeemed: rec.shares_redeemed + shares,
                col_to_withdraw: rec.col_to_withdraw - share_of_col_liquidated,
                ..rec
            };
            out.set(k, updated);
            col_to_withdraw = col_to_withdraw + share_of_col_liquidated;
            total_debt_covered = total_debt_covered + share_of_debt_paid;
            k = k + 1;
            if total_debt_covered >= amount || (amount - total_debt_covered) < SCALE {
                finished = true;
            }
        }
        proof {
            if !finished {
                assert(walk0 == ColWalk::Done(
                    col_to_withdraw as int,
                    total_debt_covered as int,
                    k as nat,
                ));
            }
        }
        dep.liquidation_index = stats.liquidation_index;
        Ok(CollateralClaim { collateral: col_to_withdraw, deposit: dep, records: out })
    }

    /// Chooses how many of the liquidatable vaults (in the order the vaults
    /// contract lists them) the pool can pay off with what is deposited:
    /// vaults are taken while their total debt stays within the deposits.
    /// Refused when not even the first one fits.
    pub fn select_vaults_to_liquidate(vaults: &Vec<Vault>, current_deposited: u128) -> (r: Result<
        (u128, u32),
        SCErrors,
    >)
        requires
            greedy_fits(vaults@, 0, 0, current_deposited as int),
            vaults@.len() <= u32::MAX,
        ensures
            ({
                let (count, total) = greedy_from(vaults@, 0, 0, current_deposited as int);
                if count == 0 {
                    r == Err::<(u128, u32), SCErrors>(SCErrors::CantLiquidateVaults)
                } else {
                    r == Ok::<(u128, u32), SCErrors>((total as u128, count as u32))
                }
            }),
    {
        let ghost limit = current_deposited as int;
        let ghost full = greedy_from(vaults@, 0, 0, limit);
        let mut total_debt_to_pay: u128 = 0;
        let mut total_vaults: u32 = 0;
        let mut i: usize = 0;
        let mut stop: bool = false;
        while i < vaults.len() && !stop
            invariant
                i <= vaults@.len(),
                vaults@.len() <= u32::MAX,
                total_vaults == i,
                total_debt_to_pay <= current_deposited,
                limit == current_deposited as int,
                full == greedy_from(vaults@, 0, 0, limit),
                !stop ==> greedy_fits(vaults@, i as int, total_debt_to_pay as int, limit),
                !stop ==> full.0 == total_vaults + greedy_from(
                    vaults@,
                    i as int,
                    total_debt_to_pay as int,
                    limit,
                ).0 && full.1 == greedy_from(vaults@, i as int, total_debt_to_pay as int, limit).1,
                stop ==> full == (total_vaults as nat, total_debt_to_pay as int),
            decreases vaults@.len() - i + (if stop {
                0int
            } else {
                1int
            }),
        {
            let debt: u128 = vaults[i].total_debt;
            if total_debt_to_pay + debt <= current_deposited {
                total_debt_to_pay = total_debt_to_pay + debt;
                total_vaults = total_vaults + 1;
                i = i + 1;
            } else {
                stop = true;
            }
        }
        if total_vaults == 0 {
            return Err(SCErrors::CantLiquidateVaults);
        }
        Ok((total_debt_to_pay, total_vaults))
    }

    /// Settles a liquidation once the vaults contract has liquidated
    /// `vaults_liquidated` for the pool, at the oracle's price `rate_price`
    /// of the collateral: the profit above the debt's worth is split between
    /// the treasury (which pays the liquidator its part) and the pool, the
    /// rest of the collateral is recorded for the depositors, and the share
    /// price falls with the deposits used. The shares are to be paid to the
    /// liquidator and the treasury when positive, and the returned values
    /// saved.
    pub fn liquidate(
        core: &CoreState,
        stats: CoreStats,
        vaults_liquidated: &Vec<Vault>,
        rate_price: i128,
    ) -> (o: LiquidationSettlement)
        requires
            settlement_fits(*core, stats, vaults_liquidated@, rate_price),
        ensures
            ({
                let v = vaults_liquidated@;
                let debt = settle_debt(v);
                let kept = settle_kept(*core, v, rate_price);
                let shareable = settle_shareable(*core, v, rate_price);
                let liquidator = settle_liquidator(*core, v, rate_price);
                &&& o.liquidator_share == liquidator
                &&& o.treasury_share == shareable - liquidator
                &&& o.liquidation == (Liquidation {
                    index: stats.liquidation_index,
                    total_deposits: stats.total_deposits,
                    total_debt_paid: debt as u128,
                    total_col_liquidated: kept as u128,
                    col_to_withdraw: kept as u128,
                    share_price: stats.share_price,
                    total_shares: stats.total_shares,
                    shares_redeemed: 0,
                })
                &&& o.stats == (CoreStats {
                    share_price: ((stats.current_deposited - debt) * stats.share_price / (
                    stats.current_deposited as int)) as u128,
                    current_deposited: (stats.current_deposited - debt) as u128,
                    lifetime_profit: (stats.lifetime_profit + settle_gained(v, rate_price)) as u128,
                    lifetime_liquidated: (stats.lifetime_liquidated + kept) as u128,
                    liquidation_index: (stats.liquidation_index + 1) as u64,
                    ..stats
                })
            }),
    {
        let ghost v = vaults_liquidated@;
        let mut total_debt_paid: u128 = 0;
        let mut total_collateral_received: u128 = 0;
        let mut i: usize = 0;
        while i < vaults_liquidated.len()
            invariant
                i <= v.len(),
                v == vaults_liquidated@,
                sum_debt(v) <= u128::MAX,
                sum_collateral(v) <= u128::MAX,
                total_debt_paid == sum_debt(v.take(i as int)),
                total_collateral_received == sum_collateral(v.take(i as int)),
            decreases v.len() - i,
        {
            proof {
                lemma_sum_prefix(v, i + 1);
                assert(v.take(i + 1).drop_last() =~= v.take(i as int));
            }
            total_debt_paid = total_debt_paid + vaults_liquidated[i].total_debt;
            total_collateral_received = total_collateral_received
                + vaults_liquidated[i].total_collateral;
            i = i + 1;
        }
        assert(v.take(i as int) =~= v);
        let rate: u128 = rate_price as u128;
        let collateral_paid_for: u128 = div_floor(total_debt_paid * SCALE, rate);
        let collateral_gained: u128 = if collateral_paid_for > total_collateral_received {
            0
        } else {
            total_collateral_received - collateral_paid_for
        };
        let shareable_profit: u128 = div_floor(
            collateral_gained * (core.treasury_share[0] as u128),
            core.treasury_share[1] as u128,
        );
        let liquidator_share: u128 = div_floor(
            shareable_profit * (core.liquidator_share[0] as u128),
            core.liquidator_share[1] as u128,
        );
        let treasury_share: u128 = shareable_profit - liquidator_share;
        let end_collateral: u128 = total_collateral_received - shareable_profit;
        let liquidation = Liquidation {
            index: stats.liquidation_index,
            total_deposits: stats.total_deposits,
            total_debt_paid,
            total_col_liquidated: end_collateral,
            col_to_withdraw: end_collateral,
            share_price: stats.share_price,
            total_shares: stats.total_shares,
            shares_redeemed: 0,
        };
        let new_total_deposited: u128 = stats.current_deposited - total_debt_paid;
        let mut stats = stats;
        stats.share_price = div_floor(
            new_total_deposited * stats.share_price,
            stats.current_deposited,
        );
        stats.current_deposited = stats.current_deposited - total_debt_paid;
        stats.lifetime_profit = stats.lifetime_profit + collateral_gained;
        stats.lifetime_liquidated = stats.lifetime_liquidated + end_collateral;
        stats.liquidation_index = stats.liquidation_index + 1;
        LiquidationSettlement { liquidator_share, treasury_share, liquidation, stats }
    }

    /// The records of the requested liquidations (`requested` holds what is
    /// stored under each requested index): at most ten, all of which must
    /// exist.
    pub fn get_liquidations(requested: &Vec<Option<Liquidation>>) -> (r: Result<
        Vec<Liquidation>,
        SCErrors,
    >)
        ensures
            requested@.len() > MAX_LIQUIDATIONS_FETCHED ==> (r matches Err(e) && e
                == SCErrors::CantGetMoreThanTenLiquidations),
            requested@.len() <= MAX_LIQUIDATIONS_FETCHED ==> if exists|i: int|
                0 <= i < requested@.len() && (#[trigger] requested@[i]) is None {
                r matches Err(e) && e == SCErrors::LiquidationDoesntExist
            } else {
                r matches Ok(found) && found@.len() == requested@.len() && forall|i: int|
                    0 <= i < requested@.len() ==> requested@[i] == Some(#[trigger] found@[i])
            },
    {
        if requested.len() > MAX_LIQUIDATIONS_FETCHED {
            return Err(SCErrors::CantGetMoreThanTenLiquidations);
        }
        let mut found: Vec<Liquidation> = Vec::new();
        let mut i: usize = 0;
        while i < requested.len()
            invariant
                i <= requested@.len(),
                requested@.len() <= MAX_LIQUIDATIONS_FETCHED,
                found@.len() == i,
                forall|j: int| 0 <= j < i ==> requested@[j] == Some(#[trigger] found@[j]),
            decreases requested@.len() - i,
        {
            match requested[i] {
                Some(l) => {
                    found.push(l);
                },
                None => {
                    assert(requested@[i as int] is None);
                    return Err(SCErrors::LiquidationDoesntExist);
                },
            }
            i = i + 1;
        }
        assert forall|j: int| 0 <= j < requested@.len() implies !(requested@[j] is None) by {
            assert(requested@[j] == Some(found@[j]));
        }
        Ok(found)
    }
}


// ---------------------------------------------------------------------------
// Laws
// ---------------------------------------------------------------------------

/// The pool never commits more than it holds: the debt of the vaults it
/// chooses to pay off never exceeds what is deposited.
pub proof fn lemma_selection_within_deposits(vaults: Seq<Vault>, limit: int)
    requires
        0 <= limit,
    ensures
        0 <= greedy_from(vaults, 0, 0, limit).1 <= limit,
{
    lemma_greedy_bounded(vaults, 0, 0, limit);
}

proof fn lemma_greedy_bounded(vaults: Seq<Vault>, i: int, acc: int, limit: int)
    requires
        0 <= acc <= limit,
    ensures
        acc <= greedy_from(vaults, i, acc, limit).1 <= limit,
    decreases vaults.len() - i,
{
    if 0 <= i < vaults.len() && acc + vaults[i].total_debt <= limit {
        lemma_greedy_bounded(vaults, i + 1, acc + vaults[i].total_debt, limit);
    }
}

/// A liquidation's collateral is all accounted for: the liquidator's part,
/// the treasury's part and the part kept for depositors add up to the
/// collateral received, and none is negative.
pub proof fn lemma_liquidation_conserves_collateral(
    core: CoreState,
    stats: CoreStats,
    vaults: Seq<Vault>,
    rate_price: i128,
)
    requires
        settlement_fits(core, stats, vaults, rate_price),
    ensures
        ({
            let liquidator = settle_liquidator(core, vaults, rate_price);
            let shareable = settle_shareable(core, vaults, rate_price);
            let kept = settle_kept(core, vaults, rate_price);
            &&& liquidator + (shareable - liquidator) + kept == sum_collateral(vaults)
            &&& 0 <= liquidator
            &&& 0 <= shareable - liquidator
            &&& 0 <= kept
        }),
{
    let gained = settle_gained(vaults, rate_price);
    let ts = core.treasury_share@;
    let ls = core.liquidator_share@;
    assert(gained >= 0);
    assert(gained * ts[0] >= 0) by (nonlinear_arith)
        requires
            gained >= 0,
            ts[0] >= 0,
    ;
    assert(settle_shareable(core, vaults, rate_price) >= 0) by (nonlinear_arith)
        requires
            gained * ts[0] >= 0,
            ts[1] > 0,
            settle_shareable(core, vaults, rate_price) == gained * ts[0] / (ts[1] as int),
    ;
    let shareable = settle_shareable(core, vaults, rate_price);
    assert(shareable * ls[0] >= 0) by (nonlinear_arith)
        requires
            shareable >= 0,
            ls[0] >= 0,
    ;
    assert(settle_liquidator(core, vaults, rate_price) >= 0) by (nonlinear_arith)
        requires
            shareable * ls[0] >= 0,
            ls[1] > 0,
            settle_liquidator(core, vaults, rate_price) == shareable * ls[0] / (ls[1] as int),
    ;
}

/// The share price never rises in a liquidation: paying off debt with the
/// deposits can only lower the value of a share.
pub proof fn lemma_liquidation_lowers_share_price(stats: CoreStats, debt: int)
    requires
        0 <= debt <= stats.current_deposited,
        stats.current_deposited != 0,
    ensures
        0 <= (stats.current_deposited - debt) * stats.share_price / (stats.current_deposited as int)
            <= stats.share_price,
{
    lemma_share_of_total(
        stats.current_deposited - debt,
        stats.share_price as int,
        stats.current_deposited as int,
    );
}

/// The collateral a record still holds, summed over the records from
/// position `i`.
pub open spec fn unclaimed_from(recs: Seq<Liquidation>, i: int) -> int
    decreases recs.len() - i,
{
    if i < 0 || i >= recs.len() {
        0
    } else {
        recs[i].col_to_withdraw + unclaimed_from(recs, i + 1)
    }
}

/// The collateral `shares` claim from the records at positions `i .. n`.
pub open spec fn claims_between(recs: Seq<Liquidation>, i: int, n: int, shares: u128) -> int
    decreases n - i,
{
    if i < 0 || i >= n {
        0
    } else {
        col_share(recs[i], shares) + claims_between(recs, i + 1, n, shares)
    }
}

proof fn lemma_walk_claims(
    recs: Seq<Liquidation>,
    k: int,
    shares: u128,
    amount: u128,
    col: int,
    debt: int,
)
    requires
        0 <= k,
        col_walk(recs, k, shares, amount, col, debt) is Done,
    ensures
        ({
            let (c, _d, n) = (
                col_walk(recs, k, shares, amount, col, debt)->0,
                col_walk(recs, k, shares, amount, col, debt)->1,
                col_walk(recs, k, shares, amount, col, debt)->2,
            );
            &&& k <= n <= recs.len() || (k > recs.len() && n == k)
            &&& c == col + claims_between(recs, k, n as int, shares)
            &&& forall|j: int|
                k <= j < n ==> col_share(#[trigger] recs[j], shares) <= recs[j].col_to_withdraw
                    && 0 <= col_share(recs[j], shares)
        }),
    decreases recs.len() - k,
{
    if k < recs.len() {
        let r = recs[k];
        let left = r.total_shares - r.shares_redeemed;
        let pc = shares * SCALE / left;
        assert(pc >= 0) by (nonlinear_arith)
            requires
                pc == shares * SCALE / left,
                left > 0,
                shares >= 0,
        ;
        assert(r.col_to_withdraw * pc >= 0) by (nonlinear_arith)
            requires
                pc >= 0,
                r.col_to_withdraw >= 0,
        ;
        assert(col_share(r, shares) >= 0) by (nonlinear_arith)
            requires
                r.col_to_withdraw * pc >= 0,
                col_share(r, shares) == r.col_to_withdraw * pc / (SCALE as int),
        ;
        let col2 = col + col_share(r, shares);
        let debt2 = debt + debt_share(r, shares);
        if debt2 >= amount || amount - debt2 < SCALE {
            assert(claims_between(recs, k + 1, k + 1, shares) == 0);
        } else {
            lemma_walk_claims(recs, k + 1, shares, amount, col2, debt2);
        }
    }
}

proof fn lemma_unclaimed_split(
    before: Seq<Liquidation>,
    after: Seq<Liquidation>,
    i: int,
    n: int,
    shares: u128,
)
    requires
        0 <= i,
        n <= before.len(),
        after.len() == before.len(),
        forall|j: int| 0 <= j < n ==> #[trigger] after[j] == claimed(before[j], shares),
        forall|j: int| n <= j < before.len() ==> #[trigger] after[j] == before[j],
        forall|j: int|
            0 <= j < n ==> col_share(#[trigger] before[j], shares) <= before[j].col_to_withdraw
                && 0 <= col_share(before[j], shares),
    ensures
        unclaimed_from(before, i) == unclaimed_from(after, i) + claims_between(before, i, n, shares),
    decreases before.len() - i,
{
    if i < before.len() {
        lemma_unclaimed_split(before, after, i + 1, n, shares);
        if i < n {
            assert(after[i] == claimed(before[i], shares));
            assert(col_share(before[i], shares) <= before[i].col_to_withdraw);
        } else {
            assert(after[i] == before[i]);
        }
    }
}

/// Claiming collateral neither creates nor destroys it: what the deposit
/// receives plus what stays unclaimed in the records equals what the records
/// held before.
pub proof fn lemma_claims_conserve_collateral(
    before: Seq<Liquidation>,
    after: Seq<Liquidation>,
    shares: u128,
    amount: u128,
)
    requires
        col_walk(before, 0, shares, amount, 0, 0) is Done,
        after.len() == before.len(),
        forall|j: int|
            0 <= j < col_walk(before, 0, shares, amount, 0, 0)->2 ==> #[trigger] after[j]
                == claimed(before[j], shares),
        forall|j: int|
            col_walk(before, 0, shares, amount, 0, 0)->2 <= j < before.len() ==> #[trigger] after[j]
                == before[j],
    ensures
        unclaimed_from(before, 0) == unclaimed_from(after, 0) + col_walk(
            before,
            0,
            shares,
            amount,
            0,
            0,
        )->0,
{
    lemma_walk_claims(before, 0, shares, amount, 0, 0);
    let n = col_walk(before, 0, shares, amount, 0, 0)->2 as int;
    lemma_unclaimed_split(before, after, 0, n, shares);
}

/// Shares that are all the shares left unredeemed in a liquidation claim all
/// the collateral it still holds.
pub proof fn lemma_last_shares_claim_everything(r: Liquidation, shares: u128)
    requires
        r.shares_redeemed <= r.total_shares,
        shares == r.total_shares - r.shares_redeemed,
        shares > 0,
    ensures
        col_share(r, shares) == r.col_to_withdraw,
{
    assert(shares * SCALE / (shares as int) == SCALE) by (nonlinear_arith)
        requires
            shares > 0,
    ;
    assert(r.col_to_withdraw * SCALE / (SCALE as int) == r.col_to_withdraw) by (nonlinear_arith);
}

/// The first depositor of an empty pool gets back exactly what it deposited
/// when it withdraws before any liquidation.
pub proof fn lemma_sole_depositor_round_trip(stats: CoreStats, amount: u128)
    requires
        stats.current_deposited == 0,
        stats.total_shares == 0,
        stats.share_price != 0,
        amount * SCALE <= u128::MAX,
        shares_for(amount, stats.share_price) > 0,
    ensures
        stable_value(
            shares_for(amount, stats.share_price) as u128,
            amount,
            shares_for(amount, stats.share_price) as u128,
        ) == amount,
{
    let sh = shares_for(amount, stats.share_price);
    assert(sh <= amount * SCALE) by (nonlinear_arith)
        requires
            sh == amount * SCALE / (stats.share_price as int),
            stats.share_price >= 1,
            amount >= 0,
    ;
    assert(sh as u128 == sh);
    assert(sh * amount / sh == amount) by (nonlinear_arith)
        requires
            sh > 0,
    ;
}

/// The total shares held by a list of deposits.
pub open spec fn sum_shares(ds: Seq<Deposit>) -> int
    decreases ds.len(),
{
    if ds.len() == 0 {
        0
    } else {
        sum_shares(ds.drop_last()) + ds.last().shares
    }
}

proof fn lemma_sum_shares_remove(ds: Seq<Deposit>, i: int)
    requires
        0 <= i < ds.len(),
    ensures
        sum_shares(ds.remove(i)) == sum_shares(ds) - ds[i].shares,
    decreases ds.len(),
{
    if i < ds.len() - 1 {
        let rest = ds.drop_last();
        lemma_sum_shares_remove(rest, i);
        assert(ds.remove(i).drop_last() =~= rest.remove(i));
        assert(ds.remove(i).last() == ds.last());
    } else {
        assert(ds.remove(i) =~= ds.drop_last());
    }
}

/// The pool's count of shares is the sum of the shares of its deposits: a
/// deposit adds exactly the shares it issues, and a withdrawal takes away
/// exactly the shares of the deposit it closes.
pub proof fn lemma_shares_track_deposits(
    stats: CoreStats,
    ds: Seq<Deposit>,
    new_deposit: Deposit,
    amount: u128,
    i: int,
)
    requires
        stats.total_shares == sum_shares(ds),
        stats.share_price != 0,
        new_deposit.shares == shares_for(amount, stats.share_price),
        0 <= i < ds.len(),
    ensures
        stats.total_shares + shares_for(amount, stats.share_price) == sum_shares(
            ds.push(new_deposit),
        ),
        stats.total_shares - ds[i].shares == sum_shares(ds.remove(i)),
{
    assert(ds.push(new_deposit).drop_last() =~= ds);
    lemma_sum_shares_remove(ds, i);
}

/// A deposit that holds every share withdraws everything deposited.
pub proof fn lemma_last_depositor_takes_rest(stats: CoreStats, d: Deposit)
    requires
        d.shares == stats.total_shares,
        stats.total_shares > 0,
    ensures
        stable_value(d.shares, stats.current_deposited, stats.total_shares)
            == stats.current_deposited,
{
    let t = stats.total_shares as int;
    let c = stats.current_deposited as int;
    assert(t * c / t == c) by (nonlinear_arith)
        requires
            t > 0,
    ;
}

/// A deposit that holds every share not yet redeemed from a liquidation
/// record owns all the collateral the record still holds and all of its
/// paid debt, whatever part of the record's shares was redeemed before.
pub proof fn lemma_remaining_shares_own_everything(r: Liquidation, shares: u128)
    requires
        r.shares_redeemed <= r.total_shares,
        shares == r.total_shares - r.shares_redeemed,
        shares > 0,
    ensures
        owned_col(r, shares) == r.col_to_withdraw,
        owned_debt(r, shares) == r.total_debt_paid,
{
    let left: int = shares as int;
    let s: int = SCALE as int;
    assert(left * s / left == s) by (nonlinear_arith)
        requires
            left > 0,
    ;
    assert(owned_fraction(r, shares) == s);
    assert(r.col_to_withdraw * s / s == r.col_to_withdraw) by (nonlinear_arith)
        requires
            s > 0,
    ;
    assert(r.total_debt_paid * s / s == r.total_debt_paid) by (nonlinear_arith)
        requires
            s > 0,
    ;
}

/// `withdraw_collateral` on a single liquidation record, for a deposit that
/// holds every share not yet redeemed from it, gives the deposit all the
/// collateral the record still holds and redeems its shares from it.
pub proof fn lemma_last_claim_on_a_record_takes_it_all(r: Liquidation, shares: u128, amount: u128)
    requires
        r.shares_redeemed <= r.total_shares,
        shares == r.total_shares - r.shares_redeemed,
        shares > 0,
        owned_walk(seq![r], 0, shares, amount, 0, 0) is Done,
    ensures
        owned_walk(seq![r], 0, shares, amount, 0, 0)->0 == r.col_to_withdraw,
        owned_walk(seq![r], 0, shares, amount, 0, 0)->2 == 1,
        redeemed(r, shares).shares_redeemed == r.total_shares,
{
    lemma_remaining_shares_own_everything(r, shares);
    let recs = seq![r];
    assert(recs[0] == r);
    let col2 = owned_col(r, shares);
    let debt2 = owned_debt(r, shares);
    if !(debt2 >= amount || amount - debt2 < SCALE) {
        assert(owned_walk(recs, 1, shares, amount, col2, debt2) == ColWalk::Done(
            col2,
            debt2,
            1,
        ));
    }
}

/// A deposit's part of a liquidation's paid debt is reckoned on all the
/// shares the liquidation was recorded with: it does not change as other
/// deposits redeem their shares.
pub proof fn lemma_debt_share_ignores_redemptions(r: Liquidation, shares: u128, redeemed_before: u128)
    ensures
        debt_share(Liquidation { shares_redeemed: redeemed_before, ..r }, shares) == debt_share(
            r,
            shares,
        ),
{
}

/// A deposit buys shares at the share price: the shares times the price
/// are at most the amount (scaled by `SCALE`), and one share more would
/// exceed it; at the initial price of one, a deposit buys as many shares as
/// its amount.
pub proof fn lemma_shares_bought_at_share_price(amount: u128, share_price: u128)
    requires
        share_price > 0,
    ensures
        shares_for(amount, share_price) * share_price <= amount * SCALE,
        amount * SCALE < (shares_for(amount, share_price) + 1) * share_price,
        shares_for(amount, SCALE) == amount,
{
    crate::math::lemma_floor_div(amount * SCALE, share_price as int);
    assert((amount as int) * (SCALE as int) / (SCALE as int) == amount) by (nonlinear_arith);
}

/// A deposit's shares are worth their part of what is deposited: times all
/// the shares, the stablecoins given back are at most the deposit's shares
/// times what is deposited, and one unit more would exceed it.
pub proof fn lemma_withdrawal_is_share_of_deposits(shares: u128, current: u128, total: u128)
    requires
        total > 0,
    ensures
        stable_value(shares, current, total) * total <= shares * current,
        shares * current < (stable_value(shares, current, total) + 1) * total,
{
    crate::math::lemma_floor_div(shares * current, total as int);
}

/// The collateral the paid debt is worth is the debt over the oracle's
/// price (rounded down), and a part of the profit is the profit times the
/// fraction (rounded down).
pub proof fn lemma_liquidation_prices(debt: int, rate: u128, amount: int, fraction: Seq<u32>)
    requires
        rate > 0,
        fraction.len() >= 2,
        fraction[1] > 0,
    ensures
        collateral_paid_for(debt, rate) * rate <= debt * SCALE,
        debt * SCALE < (collateral_paid_for(debt, rate) + 1) * rate,
        fraction_of(amount, fraction) * fraction[1] <= amount * fraction[0],
        amount * fraction[0] < (fraction_of(amount, fraction) + 1) * fraction[1],
{
    crate::math::lemma_floor_div(debt * SCALE, rate as int);
    crate::math::lemma_floor_div(amount * fraction[0], fraction[1] as int);
}

} // verus!
