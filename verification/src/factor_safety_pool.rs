//! The earlier design of the safety pool, in which liquidated collateral is
//! shared through a cumulative collateral factor instead of per-liquidation
//! records: each deposit remembers the factor when it was made, and on
//! withdrawal receives its amount times the factor's growth since.
use vstd::prelude::*;
use crate::ids::AccountId;
use crate::math::{div_floor, SCALE};
use crate::vaults::Vault;
use crate::safety_pool::{
    is_depositor_listed, parts_fit, remove_depositor_from_depositors, remove_walk, settlement_parts,
    settle_gained, settle_kept, settle_liquidator, settle_shareable, shares_for, sum_collateral,
    sum_debt, CoreState, SCErrors, LOCK_PERIOD,
};

verus! {

/// The pool's running statistics.
#[derive(Clone, Copy, Debug, PartialEq, Eq, Structural)]
pub struct CoreStats {
    pub lifetime_deposited: u128,
    pub current_deposited: u128,
    pub lifetime_profit: u128,
    pub lifetime_liquidated: u128,
    /// The liquidated collateral not yet withdrawn by depositors.
    pub current_liquidated: u128,
    /// Collateral kept per deposited unit since inception, scaled by
    /// `SCALE`.
    pub collateral_factor: u128,
    pub total_shares: u128,
    pub share_price: u128,
}

/// A depositor's deposit.
#[derive(Clone, Copy, Debug, PartialEq, Eq, Structural)]
pub struct Deposit {
    pub depositor: AccountId,
    pub amount: u128,
    pub last_deposit: u64,
    pub shares: u128,
    pub share_price_paid: u128,
    /// The collateral factor when the deposit was made.
    pub current_collateral_factor: u128,
}

/// What a successful deposit writes.
pub struct DepositOutcome {
    pub deposit: Deposit,
    pub depositors: Vec<AccountId>,
    pub stats: CoreStats,
}

/// What a successful withdrawal writes and pays: the stablecoins and the
/// collateral to give the depositor, the statistics and the depositors
/// list.
pub struct FactorWithdrawal {
    pub stable: u128,
    pub collateral: u128,
    pub stats: CoreStats,
    pub depositors: Vec<AccountId>,
}

/// The stablecoins a deposit is worth: its amount scaled by how the share
/// price moved since it was made.
pub open spec fn stable_worth(d: Deposit, share_price: u128) -> int {
    d.amount * share_price / (d.share_price_paid as int)
}

/// The collateral a deposit has earned: its amount times the growth of the
/// collateral factor since it was made.
pub open spec fn collateral_earned(d: Deposit, factor: u128) -> int {
    d.amount * (factor - d.current_collateral_factor) / (SCALE as int)
}

/// The collateral paid out: what was earned, but never more than what is
/// still liquidated.
pub open spec fn collateral_paid(d: Deposit, stats: CoreStats) -> int {
    let earned = collateral_earned(d, stats.collateral_factor);
    if earned > stats.current_liquidated {
        stats.current_liquidated as int
    } else {
        earned
    }
}

/// Every quantity of the settlement stays within its integer type, and no
/// division is by zero.
pub open spec fn settlement_fits(
    core: CoreState,
    stats: CoreStats,
    vaults: Seq<Vault>,
    rate_price: i128,
) -> bool {
    let debt = sum_debt(vaults);
    let gained = settle_gained(vaults, rate_price);
    let kept = settle_kept(core, vaults, rate_price);
    &&& parts_fit(core, vaults, rate_price)
    &&& kept * SCALE <= u128::MAX
    &&& stats.lifetime_deposited != 0
    &&& stats.collateral_factor + kept * SCALE / (stats.lifetime_deposited as int) <= u128::MAX
    &&& debt <= stats.current_deposited
    &&& stats.current_deposited != 0
    &&& (stats.current_deposited - debt) * stats.share_price <= u128::MAX
    &&& stats.lifetime_profit + gained <= u128::MAX
    &&& stats.lifetime_liquidated + kept <= u128::MAX
    &&& stats.current_liquidated + kept <= u128::MAX
}

/// Whether a liquidation can be settled without leaving an integer range
/// (see `settlement_fits`).
pub fn can_settle(core: &CoreState, stats: CoreStats, vaults: &Vec<Vault>, rate_price: i128) -> (ok:
    bool)
    ensures
        ok == settlement_fits(*core, stats, vaults@, rate_price),
{
    match settlement_parts(core, vaults, rate_price) {
        None => false,
        Some(p) => {
            match p.kept.checked_mul(SCALE) {
                None => false,
                Some(scaled) => {
                    stats.lifetime_deposited != 0 && stats.collateral_factor.checked_add(
                        div_floor(scaled, stats.lifetime_deposited),
                    ).is_some() && p.debt <= stats.current_deposited && stats.current_deposited
                        != 0 && (stats.current_deposited - p.debt).checked_mul(
                        stats.share_price,
                    ).is_some() && stats.lifetime_profit.checked_add(p.gained).is_some()
                        && stats.lifetime_liquidated.checked_add(p.kept).is_some()
                        && stats.current_liquidated.checked_add(p.kept).is_some()
                },
            }
        },
    }
}

/// What the settlement of a liquidation pays and writes.
pub struct FactorSettlement {
    pub liquidator_share: u128,
    pub treasury_share: u128,
    pub stats: CoreStats,
}

proof fn lemma_vault_sum_prefix(s: Seq<Vault>, i: int)
    requires
        0 <= i <= s.len(),
    ensures
        0 <= sum_debt(s.take(i)) <= sum_debt(s),
        0 <= sum_collateral(s.take(i)) <= sum_collateral(s),
    decreases s.len(),
{
    if s.len() > 0 {
        if i == s.len() {
            assert(s.take(i) =~= s);
            lemma_vault_sum_prefix(s.drop_last(), i - 1);
        } else {
            assert(s.drop_last().take(i) =~= s.take(i));
            lemma_vault_sum_prefix(s.drop_last(), i);
        }
    } else {
        assert(s.take(i) =~= s);
    }
}

/// The safety pool in its collateral-factor design. Each method takes what
/// the contract reads and gives back what it writes or the error it raises.
pub struct SafetyPoolContract;

impl SafetyPoolContract {
    /// The initial statistics: nothing deposited, a share worth one unit;
    /// refused once initialised.
    pub fn init(already_initiated: bool) -> (r: Result<CoreStats, SCErrors>)
        ensures
            already_initiated ==> (r matches Err(e) && e == SCErrors::ContractAlreadyInitiated),
            !already_initiated ==> r == Ok::<CoreStats, SCErrors>(
                CoreStats {
                    lifetime_deposited: 0,
                    current_deposited: 0,
                    lifetime_profit: 0,
                    lifetime_liquidated: 0,
                    current_liquidated: 0,
                    collateral_factor: 0,
                    total_shares: 0,
                    share_price: SCALE,
                },
            ),
    {
        if already_initiated {
            return Err(SCErrors::ContractAlreadyInitiated);
        }
        Ok(
            CoreStats {
                lifetime_deposited: 0,
                current_deposited: 0,
                lifetime_profit: 0,
                lifetime_liquidated: 0,
                current_liquidated: 0,
                collateral_factor: 0,
                total_shares: 0,
                share_price: SCALE,
            },
        )
    }

    /// Deposits `amount` stablecoins for `caller`, who must not hold a
    /// deposit yet; the deposit buys shares at the current share price and
    /// remembers the collateral factor.
    pub fn deposit(
        core: &CoreState,
        stats: CoreStats,
        has_deposit: bool,
        depositors: Vec<AccountId>,
        caller: AccountId,
        amount: u128,
        now: u64,
    ) -> (r: Result<DepositOutcome, SCErrors>)
        requires
            amount >= core.min_deposit && !has_deposit ==> {
                &&& stats.share_price != 0
                &&& amount * SCALE <= u128::MAX
                &&& stats.lifetime_deposited + amount <= u128::MAX
                &&& stats.current_deposited + amount <= u128::MAX
                &&& stats.total_shares + shares_for(amount, stats.share_price) <= u128::MAX
            },
        ensures
            amount < core.min_deposit ==> (r matches Err(e) && e == SCErrors::BelowMinDeposit),
            amount >= core.min_deposit && has_deposit ==> (r matches Err(e) && e
                == SCErrors::DepositAlreadyCreated),
            amount >= core.min_deposit && !has_deposit ==> (r matches Ok(o) && {
                let shares = shares_for(amount, stats.share_price);
                &&& o.deposit == Deposit {
                    depositor: caller,
                    amount,
                    last_deposit: now,
                    shares: shares as u128,
                    share_price_paid: stats.share_price,
                    current_collateral_factor: stats.collateral_factor,
                }
                &&& o.depositors@ == (if depositors@.contains(caller) {
                    depositors@
                } else {
                    depositors@.push(caller)
                })
                &&& o.stats == CoreStats {
                    lifetime_deposited: (stats.lifetime_deposited + amount) as u128,
                    current_deposited: (stats.current_deposited + amount) as u128,
                    total_shares: (stats.total_shares + shares) as u128,
                    ..stats
                }
            }),
    {
        if amount < core.min_deposit {
            return Err(SCErrors::BelowMinDeposit);
        }
        if has_deposit {
            return Err(SCErrors::DepositAlreadyCreated);
        }
        let shares_to_issue: u128 = div_floor(amount * SCALE, stats.share_price);
        let deposit = Deposit {
            depositor: caller,
            amount,
            last_deposit: now,
            shares: shares_to_issue,
            share_price_paid: stats.share_price,
            current_collateral_factor: stats.collateral_factor,
        };
        let mut depositors = depositors;
        if !is_depositor_listed(&depositors, &caller) {
            depositors.push(caller);
        }
        let mut stats = stats;
        stats.lifetime_deposited = stats.lifetime_deposited + amount;
        stats.current_deposited = stats.current_deposited + amount;
        stats.total_shares = stats.total_shares + shares_to_issue;
        Ok(DepositOutcome { deposit, depositors, stats })
    }

    /// Withdraws a deposit once locked for `LOCK_PERIOD`: its stablecoins at
    /// the current share price, and the collateral it earned (capped by the
    /// collateral still liquidated). Both are to be transferred and the
    /// deposit removed.
    pub fn withdraw(
        stats: CoreStats,
        deposit: Option<Deposit>,
        depositors: &Vec<AccountId>,
        caller: AccountId,
        now: u64,
    ) -> (r: Result<FactorWithdrawal, SCErrors>)
        requires
            deposit is Some ==> deposit->0.last_deposit + LOCK_PERIOD <= u64::MAX,
            deposit is Some && now >= deposit->0.last_deposit + LOCK_PERIOD ==> {
                let d = deposit->0;
                &&& d.share_price_paid != 0
                &&& d.amount * stats.share_price <= u128::MAX
                &&& stable_worth(d, stats.share_price) <= stats.current_deposited
                &&& d.shares <= stats.total_shares
                &&& d.current_collateral_factor <= stats.collateral_factor
                &&& d.amount * (stats.collateral_factor - d.current_collateral_factor)
                    <= u128::MAX
            },
        ensures
            deposit is None ==> (r matches Err(e) && e == SCErrors::DepositDoesntExist),
            deposit is Some && now < deposit->0.last_deposit + LOCK_PERIOD ==> (r matches Err(e)
                && e == SCErrors::LockedPeriodUncompleted),
            deposit is Some && now >= deposit->0.last_deposit + LOCK_PERIOD ==> (r matches Ok(o)
                && {
                let d = deposit->0;
                let stable = stable_worth(d, stats.share_price);
                let paid = collateral_paid(d, stats);
                &&& o.stable == stable
                &&& o.collateral == paid
                &&& o.stats == CoreStats {
                    current_deposited: (stats.current_deposited - stable) as u128,
                    total_shares: (stats.total_shares - d.shares) as u128,
                    current_liquidated: (stats.current_liquidated - paid) as u128,
                    ..stats
                }
                &&& o.depositors@ == remove_walk(depositors@, depositors@, 0, caller)
            }),
    {
        let deposit: Deposit = match deposit {
            Some(d) => d,
            None => {
                return Err(SCErrors::DepositDoesntExist);
            },
        };
        let min_timestamp: u64 = deposit.last_deposit + LOCK_PERIOD;
        if now < min_timestamp {
            return Err(SCErrors::LockedPeriodUncompleted);
        }
        let stable: u128 = div_floor(deposit.amount * stats.share_price, deposit.share_price_paid);
        let mut stats = stats;
        stats.current_deposited = stats.current_deposited - stable;
        stats.total_shares = stats.total_shares - deposit.shares;
        let mut collateral: u128 = div_floor(
            deposit.amount * (stats.collateral_factor - deposit.current_collateral_factor),
            SCALE,
        );
        if collateral > 0 {
            if collateral > stats.current_liquidated {
                collateral = stats.current_liquidated;
            }
            stats.current_liquidated = stats.current_liquidated - collateral;
        }
        let depositors = remove_depositor_from_depositors(depositors, &caller);
        Ok(FactorWithdrawal { stable, collateral, stats, depositors })
    }

    /// Settles a liquidation at the rate `rate_price`: as in the current
    /// pool, but the collateral kept for depositors raises the collateral
    /// factor in proportion to everything deposited since inception.
    pub fn liquidate(
        core: &CoreState,
        stats: CoreStats,
        vaults_liquidated: &Vec<Vault>,
        rate_price: i128,
    ) -> (o: FactorSettlement)
        requires
            settlement_fits(*core, stats, vaults_liquidated@, rate_price),
        ensures
            ({
                let v = vaults_liquidated@;
                let debt = sum_debt(v);
                let kept = settle_kept(*core, v, rate_price);
                let shareable = settle_shareable(*core, v, rate_price);
                let liquidator = settle_liquidator(*core, v, rate_price);
                &&& o.liquidator_share == liquidator
                &&& o.treasury_share == shareable - liquidator
                &&& o.stats == (CoreStats {
                    collateral_factor: (stats.collateral_factor + kept * SCALE / (
                    stats.lifetime_deposited as int)) as u128,
                    share_price: ((stats.current_deposited - debt) * stats.share_price / (
                    stats.current_deposited as int)) as u128,
                    current_deposited: (stats.current_deposited - debt) as u128,
                    lifetime_profit: (stats.lifetime_profit + settle_gained(v, rate_price)) as u128,
                    lifetime_liquidated: (stats.lifetime_liquidated + kept) as u128,
                    current_liquidated: (stats.current_liquidated + kept) as u128,
                    ..stats
                })
            }),
    {
        let ghost v = vaults_liquidated@;
        let mut total_debt_paid: u128 = 0;
        let mut total_collateral_received: u128 = 0;
        let mut i: usize = 0;
        while i < vaults_liquidated.len()
            invariant
                i <= v.len(),
                v == vaults_liquidated@,
                sum_debt(v) <= u128::MAX,
                sum_collateral(v) <= u128::MAX,
                total_debt_paid == sum_debt(v.take(i as int)),
                total_collateral_received == sum_collateral(v.take(i as int)),
            decreases v.len() - i,
        {
            proof {
                lemma_vault_sum_prefix(v, i + 1);
                assert(v.take(i + 1).drop_last() =~= v.take(i as int));
            }
            total_debt_paid = total_debt_paid + vaults_liquidated[i].total_debt;
            total_collateral_received = total_collateral_received
                + vaults_liquidated[i].total_collateral;
            i = i + 1;
        }
        assert(v.take(i as int) =~= v);
        let rate: u128 = rate_price as u128;
        let paid_for: u128 = div_floor(total_debt_paid * SCALE, rate);
        let gained: u128 = if paid_for > total_collateral_received {
            0
        } else {
            total_collateral_received - paid_for
        };
        let shareable_profit: u128 = div_floor(
            gained * (core.treasury_share[0] as u128),
            core.treasury_share[1] as u128,
        );
        let liquidator_share: u128 = div_floor(
            shareable_profit * (core.liquidator_share[0] as u128),
            core.liquidator_share[1] as u128,
        );
        let treasury_share: u128 = shareable_profit - liquidator_share;
        let end_collateral: u128 = total_collateral_received - shareable_profit;
        let mut stats = stats;
        stats.collateral_factor = stats.collateral_factor + div_floor(
            end_collateral * SCALE,
            stats.lifetime_deposited,
        );
        let new_total_deposited: u128 = stats.current_deposited - total_debt_paid;
        stats.share_price = div_floor(
            new_total_deposited * stats.share_price,
            stats.current_deposited,
        );
        stats.current_deposited = stats.current_deposited - total_debt_paid;
        stats.lifetime_profit = stats.lifetime_profit + gained;
        stats.lifetime_liquidated = stats.lifetime_liquidated + end_collateral;
        stats.current_liquidated = stats.current_liquidated + end_collateral;
        FactorSettlement { liquidator_share, treasury_share, stats }
    }
}

/// The collateral a depositor withdraws never exceeds what is still
/// liquidated, so the pool never pays out collateral it does not hold: what
/// is paid plus what remains equals what was liquidated and unclaimed.
pub proof fn lemma_collateral_paid_within_liquidated(d: Deposit, stats: CoreStats)
    requires
        d.current_collateral_factor <= stats.collateral_factor,
    ensures
        0 <= collateral_paid(d, stats) <= stats.current_liquidated,
        (stats.current_liquidated - collateral_paid(d, stats)) + collateral_paid(d, stats)
            == stats.current_liquidated,
{
    let g = stats.collateral_factor - d.current_collateral_factor;
    assert(0 <= d.amount * g) by (nonlinear_arith)
        requires
            g >= 0,
            d.amount >= 0,
    ;
    assert(0 <= d.amount * g / (SCALE as int)) by (nonlinear_arith)
        requires
            0 <= d.amount * g,
    ;
}

/// A deposit withdrawn at the share price it was bought at gives back
/// exactly its amount. At any other share price the stablecoins given back
/// are the amount scaled by the current price over the price paid, rounded
/// down: times the price paid they never exceed the amount times the current
/// price, and one unit more would; so a fall of the price never gives back
/// more than was deposited.
pub proof fn lemma_withdrawal_scales_with_share_price(d: Deposit, share_price: u128)
    requires
        d.share_price_paid > 0,
    ensures
        stable_worth(d, d.share_price_paid) == d.amount,
        stable_worth(d, share_price) * d.share_price_paid <= d.amount * share_price,
        d.amount * share_price < (stable_worth(d, share_price) + 1) * d.share_price_paid,
        share_price <= d.share_price_paid ==> stable_worth(d, share_price) <= d.amount,
{
    let a: int = d.amount as int;
    let p: int = d.share_price_paid as int;
    let c: int = share_price as int;
    let w = stable_worth(d, share_price);
    assert(a * p / p == a) by (nonlinear_arith)
        requires
            p > 0,
    ;
    assert(w * p <= a * c && a * c < (w + 1) * p) by (nonlinear_arith)
        requires
            w == a * c / p,
            p > 0,
    ;
    if c <= p {
        assert(a * c <= a * p) by (nonlinear_arith)
            requires
                c <= p,
                a >= 0,
        ;
        assert(w <= a) by (nonlinear_arith)
            requires
                w * p <= a * c,
                a * c <= a * p,
                p > 0,
        ;
    }
}

/// A deposit earns no collateral while the collateral factor has not grown
/// since it was made; otherwise it earns its amount times the factor's
/// growth, scaled down and rounded down.
pub proof fn lemma_collateral_earned_by_growth(d: Deposit, factor: u128)
    requires
        d.current_collateral_factor <= factor,
    ensures
        collateral_earned(d, d.current_collateral_factor) == 0,
        collateral_earned(d, factor) * (SCALE as int) <= d.amount * (factor
            - d.current_collateral_factor),
        d.amount * (factor - d.current_collateral_factor) < (collateral_earned(d, factor) + 1) * (
        SCALE as int),
{
    let g: int = factor - d.current_collateral_factor;
    let a: int = d.amount as int;
    let s: int = SCALE as int;
    let e = collateral_earned(d, factor);
    assert(a * 0 == 0);
    assert(e * s <= a * g && a * g < (e + 1) * s) by (nonlinear_arith)
        requires
            e == a * g / s,
            s > 0,
    ;
}

} // verus!
