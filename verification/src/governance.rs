//! The governance DAO: proposals paid for by their proposers, quadratic
//! voting paid in the governance token, and the execution of accepted
//! proposals.
use vstd::prelude::*;
use crate::ids::{AccountId, HashId, SymbolId};

verus! {

/// Errors raised by the governance contract.
#[derive(Clone, Copy, Debug, PartialEq, Eq, Structural)]
pub enum SCErrors {
    ContractAlreadyInitiated,
    ProposalsFeeNotSet,
    InvalidProposalFee,
    ProposalDoesntExist,
    ProposalIdAlreadyInUse,
    ProposalIsNotActive,
    InvalidVotingTime,
    ProposalPeriodHasNotEnded,
    ProposalAlreadyExecuted,
    ExecutionParamsAreInvalid,
    UnsupportedProposalType,
    CanNotVote,
}

impl SCErrors {
    /// The contract error number the host reports for this error.
    pub open spec fn error_code(self) -> u32 {
        match self {
            SCErrors::ContractAlreadyInitiated => 10001,
            SCErrors::ProposalsFeeNotSet => 20000,
            SCErrors::InvalidProposalFee => 20001,
            SCErrors::ProposalDoesntExist => 20002,
            SCErrors::ProposalIdAlreadyInUse => 20003,
            SCErrors::ProposalIsNotActive => 20004,
            SCErrors::InvalidVotingTime => 20005,
            SCErrors::ProposalPeriodHasNotEnded => 20006,
            SCErrors::ProposalAlreadyExecuted => 20007,
            SCErrors::ExecutionParamsAreInvalid => 20008,
            SCErrors::UnsupportedProposalType => 20009,
            SCErrors::CanNotVote => 30000,
        }
    }

    pub fn code(&self) -> (c: u32)
        ensures
            c == self.error_code(),
    {
        match self {
            SCErrors::ContractAlreadyInitiated => 10001,
            SCErrors::ProposalsFeeNotSet => 20000,
            SCErrors::InvalidProposalFee => 20001,
            SCErrors::ProposalDoesntExist => 20002,
            SCErrors::ProposalIdAlreadyInUse => 20003,
            SCErrors::ProposalIsNotActive => 20004,
            SCErrors::InvalidVotingTime => 20005,
            SCErrors::ProposalPeriodHasNotEnded => 20006,
            SCErrors::ProposalAlreadyExecuted => 20007,
            SCErrors::ExecutionParamsAreInvalid => 20008,
            SCErrors::UnsupportedProposalType => 20009,
            SCErrors::CanNotVote => 30000,
        }
    }
}

/// The contract's configuration.
#[derive(Clone, Copy, Debug, PartialEq, Eq, Structural)]
pub struct CoreState {
    pub governance_token: AccountId,
    pub proposals_fee: u128,
    pub voting_credit_price: u128,
    pub contract_admin: AccountId,
    pub cooldown_period: u64,
}

/// The storage keys of the contract's configuration.
#[derive(Clone, Copy, Debug, PartialEq, Eq, Structural)]
pub enum CoreStorageKeys {
    CoreState,
    /// The contracts this DAO manages and is allowed to call or upgrade.
    ManagingContracts,
    /// For each managed contract, the functions a proposal may call on it.
    AllowedContractsFunctions,
}

/// The kinds of proposal.
#[derive(Clone, Copy, Debug, PartialEq, Eq, Structural)]
pub enum ProposalType {
    /// The community decides on something off-chain.
    Simple,
    /// Upgrade one of the contracts this DAO administers.
    UpgradeContract,
    /// Call a parameter-updating function of a managed contract.
    UpdateContract,
    /// Move funds from the treasury.
    TreasuryPayment,
    /// A change to the protocol's structure; not supported yet.
    StructuralChange,
}

/// A proposer and the part of the proposal fee it pays.
#[derive(Clone, Copy, Debug, PartialEq, Eq, Structural)]
pub struct ProposerStat {
    pub id: AccountId,
    pub amount: u128,
}

#[derive(Clone, Copy, Debug, PartialEq, Eq, Structural)]
pub enum ProposalStatus {
    Active,
    Accepted,
    Denied,
    Cancelled,
}

#[derive(Clone, Copy, Debug, PartialEq, Eq, Structural)]
pub struct TreasuryPaymentProposalParams {
    pub recipient: AccountId,
    pub amount: u128,
}

#[derive(Clone, Copy, Debug, PartialEq, Eq, Structural)]
pub enum TreasuryPaymentProposalOption {
    Absent,
    Present(TreasuryPaymentProposalParams),
}

/// A call to make on a managed contract; `params` are handles of the call's
/// arguments, which the library carries without reading.
#[derive(Clone, Debug)]
pub struct UpdateContractProposalParams {
    pub contract_id: AccountId,
    pub function_name: SymbolId,
    pub params: Vec<u64>,
}

#[derive(Clone, Debug)]
pub enum UpdateContractProposalOption {
    Absent,
    Present(UpdateContractProposalParams),
}

#[derive(Clone, Copy, Debug, PartialEq, Eq, Structural)]
pub struct UpgradeContractProposalParams {
    pub contract_id: AccountId,
    pub new_contract_hash: HashId,
}

#[derive(Clone, Copy, Debug, PartialEq, Eq, Structural)]
pub enum UpgradeContractProposalOption {
    Absent,
    Present(UpgradeContractProposalParams),
}

#[derive(Clone, Debug)]
pub struct ProposalExecutionParams {
    pub upgrade_contract: UpgradeContractProposalOption,
    pub treasury_payment: TreasuryPaymentProposalOption,
    pub update_contract: UpdateContractProposalOption,
}

#[derive(Clone, Debug)]
pub struct Proposal {
    /// The hash of the proposal's text.
    pub id: HashId,
    pub status: ProposalStatus,
    pub proposal_type: ProposalType,
    pub proposers: Vec<ProposerStat>,
    pub credits_for: u128,
    pub voters_for: u128,
    pub votes_for: u128,
    pub credits_against: u128,
    pub voters_against: u128,
    pub votes_against: u128,
    pub created_at: u64,
    pub ends_at: u64,
    pub emergency_proposal: bool,
    pub execution_params: ProposalExecutionParams,
    pub executed: bool,
}

#[derive(Clone, Copy, Debug, PartialEq, Eq, Structural)]
pub enum ProposalVoteType {
    For,
    Against,
}

#[derive(Clone, Copy, Debug, PartialEq, Eq, Structural)]
pub struct ProposalVote {
    pub proposal_id: HashId,
    pub voter: AccountId,
    pub amount: u128,
    pub vote_type: ProposalVoteType,
}

#[derive(Clone, Copy, Debug, PartialEq, Eq, Structural)]
pub struct ProposalVoteIndex {
    pub proposal_id: HashId,
    pub voter_id: AccountId,
}

#[derive(Clone, Copy, Debug, PartialEq, Eq, Structural)]
pub enum ProposalsStorageKeys {
    /// The ids of the proposals, newest first.
    ProposalsIds,
    Proposal(HashId),
    /// The vote indexes of a proposal, newest first.
    ProposalVotes(HashId),
    ProposalVote(ProposalVoteIndex),
}

/// One entry of the map from managed contracts to the functions a proposal
/// may call on them.
#[derive(Clone, Debug)]
pub struct AllowedContractFunctions {
    pub contract_id: AccountId,
    pub functions: Vec<SymbolId>,
}


// ---------------------------------------------------------------------------
// Specifications
// ---------------------------------------------------------------------------

/// The price in governance tokens of `amount` votes: quadratic in the number
/// of votes, except for structural proposals where it is linear.
pub open spec fn vote_price(amount: int, credit_price: int, proposal_type: ProposalType) -> int {
    if proposal_type == ProposalType::StructuralChange {
        amount * credit_price
    } else {
        amount * amount * credit_price
    }
}

/// What the proposers together offer to pay.
pub open spec fn sum_amounts(proposers: Seq<ProposerStat>) -> int
    decreases proposers.len(),
{
    if proposers.len() == 0 {
        0
    } else {
        sum_amounts(proposers.drop_last()) + proposers.last().amount
    }
}

/// Whether one of the proposers is the given account.
pub open spec fn has_proposer(proposers: Seq<ProposerStat>, account: AccountId) -> bool {
    exists|i: int| 0 <= i < proposers.len() && (#[trigger] proposers[i]).id == account
}

/// The minimum voting times, in seconds: a simple proposal must vote for more
/// than five days, an update for more than three, a treasury payment for more
/// than seven, a contract upgrade for more than fourteen (or, as an express
/// proposal, at least one hour when the contract admin is among the
/// proposers); structural proposals are refused.
pub open spec fn voting_time_valid(
    voting_time: u64,
    proposal_type: ProposalType,
    proposers: Seq<ProposerStat>,
    contract_admin: AccountId,
) -> bool {
    match proposal_type {
        ProposalType::Simple => voting_time > 3600 * 24 * 5,
        ProposalType::UpgradeContract => if has_proposer(proposers, contract_admin) {
            voting_time >= 3600
        } else {
            voting_time > 3600 * 24 * 14
        },
        ProposalType::UpdateContract => voting_time > 3600 * 24 * 3,
        ProposalType::TreasuryPayment => voting_time > 3600 * 24 * 7,
        ProposalType::StructuralChange => false,
    }
}

/// Whether `voter` appears in a list of votes.
pub open spec fn voted_in(votes: Seq<ProposalVote>, voter: AccountId) -> bool {
    exists|i: int| 0 <= i < votes.len() && (#[trigger] votes[i]).voter == voter
}

/// Whether `voter` appears in a list of vote indexes.
pub open spec fn indexed_voter(votes: Seq<ProposalVoteIndex>, voter: AccountId) -> bool {
    exists|i: int| 0 <= i < votes.len() && (#[trigger] votes[i]).voter_id == voter
}

/// The functions the allowed-functions map lists for a contract: the entry
/// that the map holds for it, the first one when the list names it twice.
pub open spec fn allowed_functions_of(
    entries: Seq<AllowedContractFunctions>,
    contract_id: AccountId,
) -> Option<Seq<SymbolId>>
    decreases entries.len(),
{
    if entries.len() == 0 {
        None
    } else if entries[0].contract_id == contract_id {
        Some(entries[0].functions@)
    } else {
        allowed_functions_of(entries.drop_first(), contract_id)
    }
}

/// Whether a proposal may call `function_name` on `contract_id`.
pub open spec fn function_allowed(
    entries: Seq<AllowedContractFunctions>,
    contract_id: AccountId,
    function_name: SymbolId,
) -> bool {
    match allowed_functions_of(entries, contract_id) {
        Some(fs) => fs.contains(function_name),
        None => false,
    }
}

/// Whether the execution parameters fit the proposal's type: an update must
/// name a managed contract and one of the functions allowed on it, an upgrade
/// must name a managed contract; other types take any parameters.
pub open spec fn execution_params_valid(
    proposal_type: ProposalType,
    params: ProposalExecutionParams,
    managing_contracts: Seq<AccountId>,
    allowed: Seq<AllowedContractFunctions>,
) -> bool {
    match proposal_type {
        ProposalType::UpdateContract => match params.update_contract {
            UpdateContractProposalOption::Absent => false,
            UpdateContractProposalOption::Present(p) => managing_contracts.contains(p.contract_id)
                && function_allowed(allowed, p.contract_id, p.function_name),
        },
        ProposalType::UpgradeContract => match params.upgrade_contract {
            UpgradeContractProposalOption::Absent => false,
            UpgradeContractProposalOption::Present(p) => managing_contracts.contains(
                p.contract_id,
            ),
        },
        _ => true,
    }
}

/// A proposal that is open for voting at `now`.
pub open spec fn active_at(proposal: Proposal, now: u64) -> bool {
    now <= proposal.ends_at
}

/// The first check that refuses a new proposal, if any.
pub open spec fn create_proposal_error(
    core: CoreState,
    id_in_use: bool,
    managing_contracts: Seq<AccountId>,
    allowed: Seq<AllowedContractFunctions>,
    proposal_type: ProposalType,
    proposers: Seq<ProposerStat>,
    voting_time: u64,
    execution_params: ProposalExecutionParams,
) -> Option<SCErrors> {
    if id_in_use {
        Some(SCErrors::ProposalIdAlreadyInUse)
    } else if !voting_time_valid(voting_time, proposal_type, proposers, core.contract_admin) {
        Some(SCErrors::InvalidVotingTime)
    } else if core.proposals_fee == 0 {
        Some(SCErrors::ProposalsFeeNotSet)
    } else if core.proposals_fee != sum_amounts(proposers) {
        Some(SCErrors::InvalidProposalFee)
    } else if !execution_params_valid(proposal_type, execution_params, managing_contracts, allowed) {
        Some(SCErrors::ExecutionParamsAreInvalid)
    } else {
        None
    }
}

/// The first check that refuses a vote, if any.
pub open spec fn vote_error(
    proposal: Option<Proposal>,
    votes: Seq<ProposalVoteIndex>,
    voter: AccountId,
    now: u64,
) -> Option<SCErrors> {
    match proposal {
        None => Some(SCErrors::ProposalDoesntExist),
        Some(p) => if !active_at(p, now) {
            Some(SCErrors::ProposalIsNotActive)
        } else if indexed_voter(votes, voter) || p.status != ProposalStatus::Active {
            Some(SCErrors::CanNotVote)
        } else {
            None
        },
    }
}

/// The tallies of a proposal fit in their integers after one more vote.
pub open spec fn vote_fits(p: Proposal, vote_type: ProposalVoteType, amount: u128, price: int) -> bool {
    match vote_type {
        ProposalVoteType::For => p.credits_for + price <= u128::MAX && p.votes_for + amount
            <= u128::MAX && p.voters_for + 1 <= u128::MAX,
        ProposalVoteType::Against => p.credits_against + price <= u128::MAX && p.votes_against
            + amount <= u128::MAX && p.voters_against + 1 <= u128::MAX,
    }
}

/// `after` is `before` with one vote of `amount` votes costing `price` added
/// to the side `vote_type`, and nothing else changed.
pub open spec fn tallied(before: Proposal, after: Proposal, vote_type: ProposalVoteType, amount: u128, price: int) -> bool {
    &&& after.id == before.id
    &&& after.status == before.status
    &&& after.proposal_type == before.proposal_type
    &&& after.proposers == before.proposers
    &&& after.created_at == before.created_at
    &&& after.ends_at == before.ends_at
    &&& after.emergency_proposal == before.emergency_proposal
    &&& after.execution_params == before.execution_params
    &&& after.executed == before.executed
    &&& match vote_type {
        ProposalVoteType::For => {
            &&& after.credits_for == before.credits_for + price
            &&& after.votes_for == before.votes_for + amount
            &&& after.voters_for == before.voters_for + 1
            &&& after.credits_against == before.credits_against
            &&& after.votes_against == before.votes_against
            &&& after.voters_against == before.voters_against
        },
        ProposalVoteType::Against => {
            &&& after.credits_against == before.credits_against + price
            &&& after.votes_against == before.votes_against + amount
            &&& after.voters_against == before.voters_against + 1
            &&& after.credits_for == before.credits_for
            &&& after.votes_for == before.votes_for
            &&& after.voters_for == before.voters_for
        },
    }
}

/// `after` is `before` with its status (and possibly its executed flag)
/// replaced.
pub open spec fn same_but_status(before: Proposal, after: Proposal) -> bool {
    &&& after.id == before.id
    &&& after.proposal_type == before.proposal_type
    &&& after.proposers == before.proposers
    &&& after.credits_for == before.credits_for
    &&& after.voters_for == before.voters_for
    &&& after.votes_for == before.votes_for
    &&& after.credits_against == before.credits_against
    &&& after.voters_against == before.voters_against
    &&& after.votes_against == before.votes_against
    &&& after.created_at == before.created_at
    &&& after.ends_at == before.ends_at
    &&& after.emergency_proposal == before.emergency_proposal
    &&& after.execution_params == before.execution_params
}

/// What executing an accepted proposal asks of the host.
#[derive(Clone, Debug)]
pub enum ProposalAction {
    /// A simple proposal executes nothing on-chain.
    NoAction,
    /// Replace the wasm of a managed contract.
    UpgradeContract(UpgradeContractProposalParams),
    /// Call a function of a managed contract.
    InvokeContract(UpdateContractProposalParams),
    /// Pay from the treasury.
    TreasuryPayment(TreasuryPaymentProposalParams),
}

/// The outcome of executing a proposal, or the error that refuses it.
pub open spec fn execution_outcome(p: Proposal) -> Result<ProposalAction, SCErrors> {
    if p.executed {
        Err(SCErrors::ProposalAlreadyExecuted)
    } else {
        match p.proposal_type {
            ProposalType::Simple => Ok(ProposalAction::NoAction),
            ProposalType::UpgradeContract => match p.execution_params.upgrade_contract {
                UpgradeContractProposalOption::Absent => Err(SCErrors::ExecutionParamsAreInvalid),
                UpgradeContractProposalOption::Present(u) => Ok(ProposalAction::UpgradeContract(u)),
            },
            ProposalType::UpdateContract => match p.execution_params.update_contract {
                UpdateContractProposalOption::Absent => Err(SCErrors::ExecutionParamsAreInvalid),
                UpdateContractProposalOption::Present(u) => Ok(ProposalAction::InvokeContract(u)),
            },
            ProposalType::TreasuryPayment => match p.execution_params.treasury_payment {
                TreasuryPaymentProposalOption::Absent => Err(SCErrors::ExecutionParamsAreInvalid),
                TreasuryPaymentProposalOption::Present(t) => Ok(ProposalAction::TreasuryPayment(t)),
            },
            ProposalType::StructuralChange => Err(SCErrors::UnsupportedProposalType),
        }
    }
}

/// Two actions ask the host for the same thing (call arguments compared by
/// their contents).
pub open spec fn same_action(a: ProposalAction, b: ProposalAction) -> bool {
    match (a, b) {
        (ProposalAction::NoAction, ProposalAction::NoAction) => true,
        (ProposalAction::UpgradeContract(x), ProposalAction::UpgradeContract(y)) => x == y,
        (ProposalAction::InvokeContract(x), ProposalAction::InvokeContract(y)) => x.contract_id
            == y.contract_id && x.function_name == y.function_name && x.params@ == y.params@,
        (ProposalAction::TreasuryPayment(x), ProposalAction::TreasuryPayment(y)) => x == y,
        _ => false,
    }
}

proof fn lemma_sum_amounts_prefix(s: Seq<ProposerStat>, i: int)
    requires
        0 <= i <= s.len(),
    ensures
        0 <= sum_amounts(s.take(i)) <= sum_amounts(s),
    decreases s.len(),
{
    if s.len() > 0 {
        if i == s.len() {
            assert(s.take(i) =~= s);
            lemma_sum_amounts_prefix(s.drop_last(), i - 1);
        } else {
            assert(s.drop_last().take(i) =~= s.take(i));
            lemma_sum_amounts_prefix(s.drop_last(), i);
        }
    } else {
        assert(s.take(i) =~= s);
    }
}

// ---------------------------------------------------------------------------
// Proposal helpers
// ---------------------------------------------------------------------------

/// Whether the proposers together pay exactly the proposals fee.
pub fn validate_proposers_payment(proposal_fee: &u128, proposers: &Vec<ProposerStat>) -> (valid: bool)
    requires
        sum_amounts(proposers@) <= u128::MAX,
    ensures
        valid == (*proposal_fee == sum_amounts(proposers@)),
{
    let mut sum: u128 = 0;
    let mut i: usize = 0;
    while i < proposers.len()
        invariant
            i <= proposers.len(),
            sum == sum_amounts(proposers@.take(i as int)),
            sum_amounts(proposers@) <= u128::MAX,
        decreases proposers.len() - i,
    {
        proof {
            lemma_sum_amounts_prefix(proposers@, i + 1);
            assert(proposers@.take(i + 1).drop_last() =~= proposers@.take(i as int));
        }
        sum = sum + proposers[i].amount;
        i = i + 1;
    }
    assert(proposers@.take(i as int) =~= proposers@);
    *proposal_fee == sum
}

/// The amount of governance tokens `amount` votes cost on a proposal of the
/// given type (`amount` squared credits, or `amount` credits for structural
/// proposals, at `credit_price` each).
pub fn calculate_proposal_vote_price(
    amount: &u128,
    credit_price: &u128,
    proposal_type: &ProposalType,
) -> (price: u128)
    requires
        vote_price(*amount as int, *credit_price as int, *proposal_type) <= u128::MAX,
        *proposal_type != ProposalType::StructuralChange ==> *amount * *amount <= u128::MAX,
    ensures
        price == vote_price(*amount as int, *credit_price as int, *proposal_type),
{
    match proposal_type {
        ProposalType::StructuralChange => *amount * *credit_price,
        _ => {
            let voting_credits: u128 = *amount * *amount;
            voting_credits * *credit_price
        },
    }
}

/// A voter may vote on an active proposal it has not voted on yet.
pub fn validate_can_vote(
    voter: &AccountId,
    proposal: &Proposal,
    proposal_votes: &Vec<ProposalVote>,
) -> (can_vote: bool)
    ensures
        can_vote == (!voted_in(proposal_votes@, *voter) && proposal.status
            == ProposalStatus::Active),
{
    let mut i: usize = 0;
    while i < proposal_votes.len()
        invariant
            i <= proposal_votes.len(),
            forall|j: int| 0 <= j < i ==> (#[trigger] proposal_votes@[j]).voter != *voter,
        decreases proposal_votes.len() - i,
    {
        if proposal_votes[i].voter == *voter {
            return false;
        }
        i = i + 1;
    }
    match proposal.status {
        ProposalStatus::Active => true,
        _ => false,
    }
}

/// Whether `voter` is among the vote indexes of a proposal.
fn has_voted(votes: &Vec<ProposalVoteIndex>, voter: &AccountId) -> (found: bool)
    ensures
        found == indexed_voter(votes@, *voter),
{
    let mut i: usize = 0;
    while i < votes.len()
        invariant
            i <= votes.len(),
            forall|j: int| 0 <= j < i ==> (#[trigger] votes@[j]).voter_id != *voter,
        decreases votes.len() - i,
    {
        if votes[i].voter_id == *voter {
            return true;
        }
        i = i + 1;
    }
    false
}

/// The proposals fee, which must have been set.
pub fn get_proposals_fee(core: &CoreState) -> (fee: Result<u128, SCErrors>)
    ensures
        core.proposals_fee == 0 ==> fee == Err::<u128, SCErrors>(SCErrors::ProposalsFeeNotSet),
        core.proposals_fee != 0 ==> fee == Ok::<u128, SCErrors>(core.proposals_fee),
{
    if core.proposals_fee == 0 {
        Err(SCErrors::ProposalsFeeNotSet)
    } else {
        Ok(core.proposals_fee)
    }
}

/// Whether the voting time is long enough for the proposal's type (see
/// `voting_time_valid`).
pub fn is_voting_time_valid(
    voting_time: u64,
    proposal_type: &ProposalType,
    proposers: &Vec<ProposerStat>,
    contract_admin: &AccountId,
) -> (valid: bool)
    ensures
        valid == voting_time_valid(voting_time, *proposal_type, proposers@, *contract_admin),
{
    match proposal_type {
        ProposalType::Simple => voting_time > 3600 * 24 * 5,
        ProposalType::UpgradeContract => {
            let mut is_admin: bool = false;
            let mut i: usize = 0;
            while i < proposers.len()
                invariant
                    i <= proposers.len(),
                    is_admin == exists|j: int|
                        0 <= j < i && (#[trigger] proposers@[j]).id == *contract_admin,
                decreases proposers.len() - i,
            {
                if proposers[i].id == *contract_admin {
                    is_admin = true;
                }
                i = i + 1;
            }
            if is_admin {
                voting_time >= 3600
            } else {
                voting_time > 3600 * 24 * 14
            }
        },
        ProposalType::UpdateContract => voting_time > 3600 * 24 * 3,
        ProposalType::TreasuryPayment => voting_time > 3600 * 24 * 7,
        ProposalType::StructuralChange => false,
    }
}

/// Whether a proposal is still open for voting at time `now`.
pub fn is_proposal_active(now: u64, proposal: &Proposal) -> (active: bool)
    ensures
        active == active_at(*proposal, now),
{
    now <= proposal.ends_at
}

/// A fresh active proposal with no votes.
pub fn new_proposal(
    id: &HashId,
    proposers: &Vec<ProposerStat>,
    proposal_type: &ProposalType,
    created_at: u64,
    ends_at: u64,
    emergency_proposal: bool,
    execution_params: ProposalExecutionParams,
) -> (proposal: Proposal)
    ensures
        proposal.id == *id,
        proposal.status == ProposalStatus::Active,
        proposal.proposal_type == *proposal_type,
        proposal.proposers@ == proposers@,
        proposal.credits_for == 0,
        proposal.voters_for == 0,
        proposal.votes_for == 0,
        proposal.credits_against == 0,
        proposal.voters_against == 0,
        proposal.votes_against == 0,
        proposal.created_at == created_at,
        proposal.ends_at == ends_at,
        proposal.emergency_proposal == emergency_proposal,
        proposal.execution_params == execution_params,
        !proposal.executed,
{
    let mut copied: Vec<ProposerStat> = Vec::new();
    let mut i: usize = 0;
    while i < proposers.len()
        invariant
            i <= proposers.len(),
            copied@ == proposers@.take(i as int),
        decreases proposers.len() - i,
    {
        copied.push(proposers[i]);
        i = i + 1;
        assert(copied@ =~= proposers@.take(i as int));
    }
    assert(proposers@.take(i as int) =~= proposers@);
    Proposal {
        id: *id,
        status: ProposalStatus::Active,
        proposal_type: *proposal_type,
        proposers: copied,
        credits_for: 0,
        voters_for: 0,
        votes_for: 0,
        credits_against: 0,
        voters_against: 0,
        votes_against: 0,
        created_at,
        ends_at,
        emergency_proposal,
        execution_params,
        executed: false,
    }
}

/// Adds a new proposal id in front of the stored list (newest first).
pub fn save_new_proposal_id(ids: &mut Vec<HashId>, proposal_id: &HashId)
    ensures
        final(ids)@ == seq![*proposal_id] + old(ids)@,
{
    ids.insert(0, *proposal_id);
    assert(ids@ =~= seq![*proposal_id] + old(ids)@);
}

/// Whether `contract_id` is one of the managed contracts.
fn is_managed(managing_contracts: &Vec<AccountId>, contract_id: &AccountId) -> (found: bool)
    ensures
        found == managing_contracts@.contains(*contract_id),
{
    let mut i: usize = 0;
    while i < managing_contracts.len()
        invariant
            i <= managing_contracts.len(),
            forall|j: int| 0 <= j < i ==> managing_contracts@[j] != *contract_id,
        decreases managing_contracts.len() - i,
    {
        if managing_contracts[i] == *contract_id {
            return true;
        }
        i = i + 1;
    }
    false
}

/// Whether the allowed-functions map lets proposals call `function_name` on
/// `contract_id`.
fn is_function_allowed(
    allowed: &Vec<AllowedContractFunctions>,
    contract_id: &AccountId,
    function_name: &SymbolId,
) -> (found: bool)
    ensures
        found == function_allowed(allowed@, *contract_id, *function_name),
{
    let mut i: usize = 0;
    assert(allowed@.skip(0) =~= allowed@);
    while i < allowed.len()
        invariant
            i <= allowed.len(),
            allowed_functions_of(allowed@, *contract_id) == allowed_functions_of(
                allowed@.skip(i as int),
                *contract_id,
            ),
        decreases allowed.len() - i,
    {
        assert(allowed@.skip(i as int).drop_first() =~= allowed@.skip(i + 1));
        if allowed[i].contract_id == *contract_id {
            let functions = &allowed[i].functions;
            assert(allowed@.skip(i as int)[0] == allowed@[i as int]);
            assert(allowed_functions_of(allowed@, *contract_id) == Some(functions@));
            let mut k: usize = 0;
            while k < functions.len()
                invariant
                    k <= functions.len(),
                    forall|j: int| 0 <= j < k ==> functions@[j] != *function_name,
                    allowed_functions_of(allowed@, *contract_id) == Some(functions@),
                decreases functions.len() - k,
            {
                if functions[k] == *function_name {
                    assert(functions@[k as int] == *function_name);
                    assert(functions@.contains(*function_name));
                    return true;
                }
                k = k + 1;
            }
            return false;
        }
        i = i + 1;
    }
    assert(allowed@.skip(i as int) =~= Seq::<AllowedContractFunctions>::empty());
    false
}

/// Whether the execution parameters fit the proposal's type (see
/// `execution_params_valid`).
pub fn validate_execution_params(
    proposal_type: &ProposalType,
    execution_params: &ProposalExecutionParams,
    managing_contracts: &Vec<AccountId>,
    allowed: &Vec<AllowedContractFunctions>,
) -> (valid: bool)
    ensures
        valid == execution_params_valid(
            *proposal_type,
            *execution_params,
            managing_contracts@,
            allowed@,
        ),
{
    match proposal_type {
        ProposalType::UpdateContract => match &execution_params.update_contract {
            UpdateContractProposalOption::Absent => false,
            UpdateContractProposalOption::Present(p) => is_managed(managing_contracts, &p.contract_id)
                && is_function_allowed(allowed, &p.contract_id, &p.function_name),
        },
        ProposalType::UpgradeContract => match &execution_params.upgrade_contract {
            UpgradeContractProposalOption::Absent => false,
            UpgradeContractProposalOption::Present(p) => is_managed(
                managing_contracts,
                &p.contract_id,
            ),
        },
        _ => true,
    }
}


// ---------------------------------------------------------------------------
// Contract entry points
// ---------------------------------------------------------------------------

/// The governance contract. Each method takes what the contract reads from
/// its storage and the ledger, and gives back what it writes or the error it
/// raises; authorisation and token transfers are left to the host.
pub struct GovernanceContract;

/// What a successful vote writes back: the updated proposal, its vote
/// indexes, and the price the voter is charged in governance tokens.
pub struct VoteOutcome {
    pub proposal: Proposal,
    pub votes: Vec<ProposalVoteIndex>,
    pub vote_price: u128,
}

impl GovernanceContract {
    /// Initialises the configuration; refused when it is already stored.
    pub fn init(
        already_initiated: bool,
        governance_token: AccountId,
        proposals_fee: u128,
        voting_credit_price: u128,
        contract_admin: AccountId,
        cooldown_period: u64,
    ) -> (r: Result<CoreState, SCErrors>)
        ensures
            already_initiated ==> r == Err::<CoreState, SCErrors>(SCErrors::ContractAlreadyInitiated),
            !already_initiated ==> r == Ok::<CoreState, SCErrors>(
                CoreState {
                    governance_token,
                    proposals_fee,
                    voting_credit_price,
                    contract_admin,
                    cooldown_period,
                },
            ),
    {
        if already_initiated {
            return Err(SCErrors::ContractAlreadyInitiated);
        }
        Ok(CoreState {
            governance_token,
            proposals_fee,
            voting_credit_price,
            contract_admin,
            cooldown_period,
        })
    }

    /// Creates a proposal. On success the proposers are to be charged their
    /// amounts, the proposal saved and its id put in front of the ids list.
    pub fn create_proposal(
        core: &CoreState,
        id_in_use: bool,
        managing_contracts: &Vec<AccountId>,
        allowed: &Vec<AllowedContractFunctions>,
        id: HashId,
        proposal_type: ProposalType,
        proposers: Vec<ProposerStat>,
        voting_time: u64,
        emergency_proposal: bool,
        execution_params: ProposalExecutionParams,
        now: u64,
    ) -> (r: Result<Proposal, SCErrors>)
        requires
            !id_in_use && voting_time_valid(voting_time, proposal_type, proposers@, core.contract_admin)
                && core.proposals_fee != 0 ==> sum_amounts(proposers@) <= u128::MAX,
            create_proposal_error(
                *core,
                id_in_use,
                managing_contracts@,
                allowed@,
                proposal_type,
                proposers@,
                voting_time,
                execution_params,
            ) is None ==> now + voting_time <= u64::MAX,
        ensures
            match create_proposal_error(
                *core,
                id_in_use,
                managing_contracts@,
                allowed@,
                proposal_type,
                proposers@,
                voting_time,
                execution_params,
            ) {
                Some(e) => r == Err::<Proposal, SCErrors>(e),
                None => r matches Ok(p) && {
                    &&& p.id == id
                    &&& p.status == ProposalStatus::Active
                    &&& p.proposal_type == proposal_type
                    &&& p.proposers@ == proposers@
                    &&& p.credits_for == 0 && p.voters_for == 0 && p.votes_for == 0
                    &&& p.credits_against == 0 && p.voters_against == 0 && p.votes_against == 0
                    &&& p.created_at == now
                    &&& p.ends_at == now + voting_time
                    &&& p.emergency_proposal == emergency_proposal
                    &&& p.execution_params == execution_params
                    &&& !p.executed
                },
            },
    {
        if id_in_use {
            return Err(SCErrors::ProposalIdAlreadyInUse);
        }
        if !is_voting_time_valid(voting_time, &proposal_type, &proposers, &core.contract_admin) {
            return Err(SCErrors::InvalidVotingTime);
        }
        let proposal_fee: u128 = match get_proposals_fee(core) {
            Ok(fee) => fee,
            Err(e) => {
                return Err(e);
            },
        };
        if !validate_proposers_payment(&proposal_fee, &proposers) {
            return Err(SCErrors::InvalidProposalFee);
        }
        if !validate_execution_params(&proposal_type, &execution_params, managing_contracts, allowed) {
            return Err(SCErrors::ExecutionParamsAreInvalid);
        }
        Ok(
            new_proposal(
                &id,
                &proposers,
                &proposal_type,
                now,
                now + voting_time,
                emergency_proposal,
                execution_params,
            ),
        )
    }

    /// A stored proposal, which must exist.
    pub fn get_proposal(stored: Option<Proposal>) -> (r: Result<Proposal, SCErrors>)
        ensures
            match stored {
                Some(p) => r == Ok::<Proposal, SCErrors>(p),
                None => r == Err::<Proposal, SCErrors>(SCErrors::ProposalDoesntExist),
            },
    {
        match stored {
            Some(p) => Ok(p),
            None => Err(SCErrors::ProposalDoesntExist),
        }
    }

    /// Casts `amount` votes of `voter` on a proposal. On success the voter is
    /// to be charged `vote_price`, and the proposal and its vote indexes
    /// saved.
    pub fn vote(
        core: &CoreState,
        proposal: Option<Proposal>,
        votes: Vec<ProposalVoteIndex>,
        voter: AccountId,
        proposal_id: HashId,
        vote_type: ProposalVoteType,
        amount: u128,
        now: u64,
    ) -> (r: Result<VoteOutcome, SCErrors>)
        requires
            vote_error(proposal, votes@, voter, now) is None ==> {
                let p = proposal->0;
                &&& vote_price(amount as int, core.voting_credit_price as int, p.proposal_type)
                    <= u128::MAX
                &&& (p.proposal_type != ProposalType::StructuralChange ==> amount * amount
                    <= u128::MAX)
                &&& vote_fits(
                    p,
                    vote_type,
                    amount,
                    vote_price(amount as int, core.voting_credit_price as int, p.proposal_type),
                )
            },
        ensures
            match vote_error(proposal, votes@, voter, now) {
                Some(e) => r matches Err(e2) && e2 == e,
                None => r matches Ok(o) && {
                    let p = proposal->0;
                    let price = vote_price(
                        amount as int,
                        core.voting_credit_price as int,
                        p.proposal_type,
                    );
                    &&& o.vote_price == price
                    &&& tallied(p, o.proposal, vote_type, amount, price)
                    &&& o.votes@ == seq![ProposalVoteIndex { voter_id: voter, proposal_id }]
                        + votes@
                },
            },
    {
        let mut proposal: Proposal = match Self::get_proposal(proposal) {
            Ok(p) => p,
            Err(e) => {
                return Err(e);
            },
        };
        if !is_proposal_active(now, &proposal) {
            return Err(SCErrors::ProposalIsNotActive);
        }
        let can_vote: bool = match proposal.status {
            ProposalStatus::Active => !has_voted(&votes, &voter),
            _ => false,
        };
        if !can_vote {
            return Err(SCErrors::CanNotVote);
        }
        let vote_price: u128 = calculate_proposal_vote_price(
            &amount,
            &core.voting_credit_price,
            &proposal.proposal_type,
        );
        let ghost votes0 = votes@;
        let mut votes = votes;
        votes.insert(0, ProposalVoteIndex { voter_id: voter, proposal_id });
        match vote_type {
            ProposalVoteType::For => {
                proposal.credits_for = proposal.credits_for + vote_price;
                proposal.votes_for = proposal.votes_for + amount;
                proposal.voters_for = proposal.voters_for + 1;
            },
            ProposalVoteType::Against => {
                proposal.credits_against = proposal.credits_against + vote_price;
                proposal.votes_against = proposal.votes_against + amount;
                proposal.voters_against = proposal.voters_against + 1;
            },
        }
        assert(votes@ =~= seq![ProposalVoteIndex { voter_id: voter, proposal_id }] + votes0);
        Ok(VoteOutcome { proposal, votes, vote_price })
    }

    /// Closes the voting of a proposal once its voting period is over: it is
    /// accepted when it has more votes for than against, cancelled otherwise.
    pub fn end_proposal(proposal: Option<Proposal>, now: u64) -> (r: Result<Proposal, SCErrors>)
        ensures
            match proposal {
                None => r == Err::<Proposal, SCErrors>(SCErrors::ProposalDoesntExist),
                Some(p) => if p.status != ProposalStatus::Active {
                    r == Err::<Proposal, SCErrors>(SCErrors::ProposalIsNotActive)
                } else if active_at(p, now) {
                    r == Err::<Proposal, SCErrors>(SCErrors::ProposalPeriodHasNotEnded)
                } else {
                    r matches Ok(q) && same_but_status(p, q) && q.executed == p.executed && q.status
                        == (if p.votes_for > p.votes_against {
                        ProposalStatus::Accepted
                    } else {
                        ProposalStatus::Cancelled
                    })
                },
            },
    {
        let mut proposal: Proposal = match Self::get_proposal(proposal) {
            Ok(p) => p,
            Err(e) => {
                return Err(e);
            },
        };
        match proposal.status {
            ProposalStatus::Active => {},
            _ => {
                return Err(SCErrors::ProposalIsNotActive);
            },
        }
        if is_proposal_active(now, &proposal) {
            return Err(SCErrors::ProposalPeriodHasNotEnded);
        }
        if proposal.votes_for > proposal.votes_against {
            proposal.status = ProposalStatus::Accepted;
        } else {
            proposal.status = ProposalStatus::Cancelled;
        }
        Ok(proposal)
    }

    /// Executes a proposal once: gives back the proposal marked executed and
    /// the action its execution asks of the host.
    pub fn execute_proposal_result(proposal: Option<Proposal>) -> (r: Result<
        (Proposal, ProposalAction),
        SCErrors,
    >)
        ensures
            match proposal {
                None => r == Err::<(Proposal, ProposalAction), SCErrors>(
                    SCErrors::ProposalDoesntExist,
                ),
                Some(p) => match execution_outcome(p) {
                    Err(e) => r == Err::<(Proposal, ProposalAction), SCErrors>(e),
                    Ok(a) => r matches Ok((q, a2)) && same_action(a2, a) && same_but_status(p, q) && q.status
                        == p.status && q.executed,
                },
            },
    {
        let mut proposal: Proposal = match Self::get_proposal(proposal) {
            Ok(p) => p,
            Err(e) => {
                return Err(e);
            },
        };
        if proposal.executed {
            return Err(SCErrors::ProposalAlreadyExecuted);
        }
        let action: ProposalAction = match proposal.proposal_type {
            ProposalType::Simple => ProposalAction::NoAction,
            ProposalType::UpgradeContract => match proposal.execution_params.upgrade_contract {
                UpgradeContractProposalOption::Absent => {
                    return Err(SCErrors::ExecutionParamsAreInvalid);
                },
                UpgradeContractProposalOption::Present(u) => ProposalAction::UpgradeContract(u),
            },
            ProposalType::UpdateContract => match &proposal.execution_params.update_contract {
                UpdateContractProposalOption::Absent => {
                    return Err(SCErrors::ExecutionParamsAreInvalid);
                },
                UpdateContractProposalOption::Present(u) => {
                    let call = UpdateContractProposalParams {
                        contract_id: u.contract_id,
                        function_name: u.function_name,
                        params: copy_handles(&u.params),
                    };
                    ProposalAction::InvokeContract(call)
                },
            },
            ProposalType::TreasuryPayment => match proposal.execution_params.treasury_payment {
                TreasuryPaymentProposalOption::Absent => {
                    return Err(SCErrors::ExecutionParamsAreInvalid);
                },
                TreasuryPaymentProposalOption::Present(t) => ProposalAction::TreasuryPayment(t),
            },
            ProposalType::StructuralChange => {
                return Err(SCErrors::UnsupportedProposalType);
            },
        };
        proposal.executed = true;
        Ok((proposal, action))
    }
}


/// A copy of a list of argument handles.
fn copy_handles(v: &Vec<u64>) -> (c: Vec<u64>)
    ensures
        c@ == v@,
{
    let mut c: Vec<u64> = Vec::new();
    let mut i: usize = 0;
    while i < v.len()
        invariant
            i <= v.len(),
            c@ == v@.take(i as int),
        decreases v.len() - i,
    {
        c.push(v[i]);
        i = i + 1;
        assert(c@ =~= v@.take(i as int));
    }
    assert(v@.take(i as int) =~= v@);
    c
}


// ---------------------------------------------------------------------------
// Laws
// ---------------------------------------------------------------------------

/// A voter votes at most once on a proposal: once a vote of `voter` has been
/// tallied into `after` and indexed in `after_votes`, any further vote of the
/// same voter is refused (with `CanNotVote` while the proposal is open, with
/// `ProposalIsNotActive` after).
pub proof fn lemma_vote_only_once(
    before: Proposal,
    after: Proposal,
    votes: Seq<ProposalVoteIndex>,
    after_votes: Seq<ProposalVoteIndex>,
    voter: AccountId,
    proposal_id: HashId,
    vote_type: ProposalVoteType,
    amount: u128,
    price: int,
    later: u64,
)
    requires
        tallied(before, after, vote_type, amount, price),
        after_votes == seq![ProposalVoteIndex { voter_id: voter, proposal_id }] + votes,
    ensures
        vote_error(Some(after), after_votes, voter, later) == (if active_at(after, later) {
            Some(SCErrors::CanNotVote)
        } else {
            Some(SCErrors::ProposalIsNotActive)
        }),
{
    assert(after_votes[0].voter_id == voter);
    assert(indexed_voter(after_votes, voter));
}

/// A proposal is executed at most once: executing an executed proposal is
/// refused with `ProposalAlreadyExecuted`.
pub proof fn lemma_execute_only_once(before: Proposal, after: Proposal)
    requires
        execution_outcome(before) is Ok,
        same_but_status(before, after),
        after.executed,
    ensures
        execution_outcome(after) == Err::<ProposalAction, SCErrors>(SCErrors::ProposalAlreadyExecuted),
{
}

/// Once a proposal has been ended, it cannot be voted on at that time or
/// later, and ending it again is refused.
pub proof fn lemma_ended_proposal_is_closed(
    before: Proposal,
    after: Proposal,
    now: u64,
    later: u64,
    votes: Seq<ProposalVoteIndex>,
    voter: AccountId,
)
    requires
        before.status == ProposalStatus::Active,
        !active_at(before, now),
        same_but_status(before, after),
        after.status == (if before.votes_for > before.votes_against {
            ProposalStatus::Accepted
        } else {
            ProposalStatus::Cancelled
        }),
        now <= later,
    ensures
        vote_error(Some(after), votes, voter, later) == Some(SCErrors::ProposalIsNotActive),
        after.status != ProposalStatus::Active,
{
}

} // verus!
