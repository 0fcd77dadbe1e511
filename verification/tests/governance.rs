use stable_protocol::governance::{
    calculate_proposal_vote_price, is_voting_time_valid, save_new_proposal_id,
    validate_can_vote, validate_proposers_payment, AllowedContractFunctions, CoreState,
    GovernanceContract, Proposal, ProposalAction, ProposalExecutionParams, ProposalStatus,
    ProposalType, ProposalVote, ProposalVoteIndex, ProposalVoteType, ProposerStat, SCErrors,
    TreasuryPaymentProposalOption, TreasuryPaymentProposalParams, UpdateContractProposalOption,
    UpdateContractProposalParams, UpgradeContractProposalOption, UpgradeContractProposalParams,
};
use stable_protocol::ids::{AccountId, HashId, SymbolId};

const TEST_PROPOSAL_FEE: u128 = 12_00_000_0000000;
const TEST_VOTING_CREDIT_PRICE: u128 = 1_0000000;

fn config(fee: u128, admin: AccountId) -> CoreState {
    CoreState {
        governance_token: AccountId(900),
        proposals_fee: fee,
        voting_credit_price: TEST_VOTING_CREDIT_PRICE,
        contract_admin: admin,
        cooldown_period: 3600 * 24,
    }
}

fn dumb_params() -> ProposalExecutionParams {
    ProposalExecutionParams {
        upgrade_contract: UpgradeContractProposalOption::Absent,
        treasury_payment: TreasuryPaymentProposalOption::Absent,
        update_contract: UpdateContractProposalOption::Absent,
    }
}

fn create(
    state: &CoreState,
    id_in_use: bool,
    managing: &Vec<AccountId>,
    allowed: &Vec<AllowedContractFunctions>,
    id: HashId,
    proposal_type: ProposalType,
    proposers: Vec<ProposerStat>,
    voting_time: u64,
    params: ProposalExecutionParams,
    now: u64,
) -> Result<Proposal, SCErrors> {
    GovernanceContract::create_proposal(
        state,
        id_in_use,
        managing,
        allowed,
        id,
        proposal_type,
        proposers,
        voting_time,
        false,
        params,
        now,
    )
}

#[test]
fn test_calculate_proposal_vote_price() {
    assert_eq!(
        calculate_proposal_vote_price(&1, &TEST_VOTING_CREDIT_PRICE, &ProposalType::Simple),
        TEST_VOTING_CREDIT_PRICE
    );
    assert_eq!(
        calculate_proposal_vote_price(&10, &TEST_VOTING_CREDIT_PRICE, &ProposalType::Simple),
        100 * TEST_VOTING_CREDIT_PRICE
    );
    assert_eq!(
        calculate_proposal_vote_price(&50, &TEST_VOTING_CREDIT_PRICE, &ProposalType::Simple),
        2500 * TEST_VOTING_CREDIT_PRICE
    );

    assert_eq!(
        calculate_proposal_vote_price(
            &1,
            &TEST_VOTING_CREDIT_PRICE,
            &ProposalType::StructuralChange
        ),
        TEST_VOTING_CREDIT_PRICE
    );
    assert_eq!(
        calculate_proposal_vote_price(
            &10,
            &TEST_VOTING_CREDIT_PRICE,
            &ProposalType::StructuralChange
        ),
        10 * TEST_VOTING_CREDIT_PRICE
    );
    assert_eq!(
        calculate_proposal_vote_price(
            &50,
            &TEST_VOTING_CREDIT_PRICE,
            &ProposalType::StructuralChange
        ),
        50 * TEST_VOTING_CREDIT_PRICE
    );
}

#[test]
fn test_creating_new_proposal_single_proposer() {
    let voting_time: u64 = 3600 * 24 * 7;
    let proposer = AccountId(1);
    let id = HashId(77);
    let proposal_type = ProposalType::Simple;
    let proposers = vec![ProposerStat { amount: 12_00_000_0000000, id: proposer }];
    let c = config(TEST_PROPOSAL_FEE, AccountId(500));
    let now: u64 = 0;

    let proposal = create(
        &c,
        false,
        &Vec::new(),
        &Vec::new(),
        id,
        proposal_type,
        proposers.clone(),
        voting_time,
        dumb_params(),
        now,
    )
    .unwrap();

    // The proposer is the one charged, the whole fee
    assert_eq!(proposal.proposers[0].id, proposer);
    assert_eq!(proposal.proposers[0].amount, 12_00_000_0000000);

    // If we try to create a new proposal with the same id it should fail
    let id_already_in_use_error_result = create(
        &c,
        true,
        &Vec::new(),
        &Vec::new(),
        id,
        proposal_type,
        proposers.clone(),
        voting_time,
        dumb_params(),
        now,
    )
    .unwrap_err();
    assert_eq!(id_already_in_use_error_result, SCErrors::ProposalIdAlreadyInUse);
    assert_eq!(id_already_in_use_error_result.code(), 20003);

    assert_eq!(proposal.proposers, proposers);
    assert_eq!(proposal.id, id);
    assert_eq!(proposal.status, ProposalStatus::Active);
    assert_eq!(proposal.proposal_type, proposal_type);
    assert_eq!(proposal.credits_for, 0);
    assert_eq!(proposal.voters_for, 0);
    assert_eq!(proposal.votes_for, 0);
    assert_eq!(proposal.credits_against, 0);
    assert_eq!(proposal.voters_against, 0);
    assert_eq!(proposal.votes_against, 0);
    assert_eq!(proposal.created_at, now);
    assert_eq!(proposal.ends_at, now + voting_time);
}

#[test]
fn test_create_new_proposal_multiple_proposers() {
    let voting_time: u64 = 36000 * 24 * 7;
    let proposers = vec![
        ProposerStat { id: AccountId(1), amount: 2_00_000_0000000 },
        ProposerStat { id: AccountId(2), amount: 4_00_000_0000000 },
        ProposerStat { id: AccountId(3), amount: 5_00_000_0000000 },
        ProposerStat { id: AccountId(4), amount: 1_00_000_0000000 },
    ];
    let c = config(TEST_PROPOSAL_FEE, AccountId(500));
    let proposal = create(
        &c,
        false,
        &Vec::new(),
        &Vec::new(),
        HashId(5),
        ProposalType::Simple,
        proposers.clone(),
        voting_time,
        dumb_params(),
        10,
    )
    .unwrap();

    // Each proposer pays its own amount, and together they pay the fee
    let charged: u128 = proposal.proposers.iter().map(|p| p.amount).sum();
    assert_eq!(charged, 12_00_000_0000000);
    for (saved, proposer) in proposal.proposers.iter().zip(proposers.iter()) {
        assert_eq!(12_00_000_0000000 - saved.amount, 12_00_000_0000000 - proposer.amount);
    }
    assert_eq!(proposal.proposers, proposers);
}

#[test]
fn test_proposals_ids() {
    let voting_time: u64 = 3600 * 24 * 7;
    let proposers = vec![ProposerStat { amount: 12_00_000_0000000, id: AccountId(1) }];
    let c = config(TEST_PROPOSAL_FEE, AccountId(500));
    let ids = [HashId(11), HashId(12), HashId(13), HashId(14)];
    let mut stored: Vec<HashId> = Vec::new();
    for id in ids.iter() {
        create(
            &c,
            false,
            &Vec::new(),
            &Vec::new(),
            *id,
            ProposalType::Simple,
            proposers.clone(),
            voting_time,
            dumb_params(),
            0,
        )
        .unwrap();
        save_new_proposal_id(&mut stored, id);
    }
    let mut reversed_ids = ids.to_vec();
    reversed_ids.reverse();
    assert_eq!(stored, reversed_ids);
}

fn managed_setup() -> (AccountId, AccountId, Vec<AccountId>, Vec<AllowedContractFunctions>) {
    let vaults = AccountId(100);
    let pool = AccountId(101);
    let allowed = vec![
        AllowedContractFunctions {
            contract_id: vaults,
            functions: vec![SymbolId(1), SymbolId(2), SymbolId(3), SymbolId(4)],
        },
        AllowedContractFunctions {
            contract_id: pool,
            functions: vec![SymbolId(10), SymbolId(11), SymbolId(12), SymbolId(13), SymbolId(14)],
        },
    ];
    (vaults, pool, vec![vaults, pool], allowed)
}

#[test]
fn test_setup_contracts() {
    let token = AccountId(900);
    let admin = AccountId(500);
    let c = GovernanceContract::init(false, token, 6_000_000_0000000, 1_0000000, admin, 3600 * 24)
        .unwrap();
    assert_eq!(c.governance_token, token);
    assert_eq!(c.proposals_fee, 6_000_000_0000000);
    assert_eq!(c.voting_credit_price, 1_0000000);
    assert_eq!(c.contract_admin, admin);
    assert_eq!(c.cooldown_period, 3600 * 24);
    assert_eq!(
        GovernanceContract::init(true, token, 6_000_000_0000000, 1_0000000, admin, 3600 * 24),
        Err(SCErrors::ContractAlreadyInitiated)
    );
}

#[test]
fn test_create_update_proposal_wrong_params() {
    let fee: u128 = 6_000_000_0000000;
    let c = config(fee, AccountId(500));
    let (vaults, _pool, managing, allowed) = managed_setup();
    let proposers = vec![ProposerStat { amount: fee, id: AccountId(1) }];
    let voting_time: u64 = 3600 * 24 * 7;

    let no_options_error = create(
        &c,
        false,
        &managing,
        &allowed,
        HashId(1),
        ProposalType::UpdateContract,
        proposers.clone(),
        voting_time,
        dumb_params(),
        0,
    )
    .unwrap_err();
    assert_eq!(no_options_error.code(), 20008);

    let wrong_contract_error = create(
        &c,
        false,
        &managing,
        &allowed,
        HashId(2),
        ProposalType::UpdateContract,
        proposers.clone(),
        voting_time,
        ProposalExecutionParams {
            upgrade_contract: UpgradeContractProposalOption::Absent,
            treasury_payment: TreasuryPaymentProposalOption::Absent,
            update_contract: UpdateContractProposalOption::Present(UpdateContractProposalParams {
                params: vec![],
                function_name: SymbolId(2),
                contract_id: AccountId(4242),
            }),
        },
        0,
    )
    .unwrap_err();
    assert_eq!(wrong_contract_error.code(), 20008);

    let wrong_function_name_error = create(
        &c,
        false,
        &managing,
        &allowed,
        HashId(3),
        ProposalType::UpdateContract,
        proposers.clone(),
        voting_time,
        ProposalExecutionParams {
            upgrade_contract: UpgradeContractProposalOption::Absent,
            treasury_payment: TreasuryPaymentProposalOption::Absent,
            update_contract: UpdateContractProposalOption::Present(UpdateContractProposalParams {
                params: vec![],
                function_name: SymbolId(99),
                contract_id: vaults,
            }),
        },
        0,
    )
    .unwrap_err();
    assert_eq!(wrong_function_name_error.code(), 20008);
}

#[test]
fn test_update_proposal_flow() {
    let fee: u128 = 6_000_000_0000000;
    let c = config(fee, AccountId(500));
    let (_vaults, pool, managing, allowed) = managed_setup();
    let proposers = vec![ProposerStat { id: AccountId(1), amount: fee }];
    let voting_time: u64 = 3600 * 24 * 7;
    let voter = AccountId(2);
    let proposal_id = HashId(9);
    let update_min_deposit = SymbolId(13);
    let new_min_deposit_handle: u64 = 100_0000000 - 25_0000000;
    let now: u64 = 1000;

    let proposal = create(
        &c,
        false,
        &managing,
        &allowed,
        proposal_id,
        ProposalType::UpdateContract,
        proposers,
        voting_time,
        ProposalExecutionParams {
            upgrade_contract: UpgradeContractProposalOption::Absent,
            treasury_payment: TreasuryPaymentProposalOption::Absent,
            update_contract: UpdateContractProposalOption::Present(UpdateContractProposalParams {
                contract_id: pool,
                function_name: update_min_deposit,
                params: vec![new_min_deposit_handle],
            }),
        },
        now,
    )
    .unwrap();
    assert_eq!(proposal.id, proposal_id);
    assert_eq!(proposal.proposal_type, ProposalType::UpdateContract);

    let voted = GovernanceContract::vote(
        &c,
        Some(proposal),
        Vec::new(),
        voter,
        proposal_id,
        ProposalVoteType::For,
        1,
        now + 10,
    )
    .unwrap();

    let later = now + voting_time + 1;
    let ended = GovernanceContract::end_proposal(Some(voted.proposal), later).unwrap();
    assert_eq!(ended.status, ProposalStatus::Accepted);

    let (executed, action) = GovernanceContract::execute_proposal_result(Some(ended)).unwrap();
    assert!(executed.executed);
    match action {
        ProposalAction::InvokeContract(call) => {
            assert_eq!(call.contract_id, pool);
            assert_eq!(call.function_name, update_min_deposit);
            assert_eq!(call.params, vec![new_min_deposit_handle]);
        }
        _ => panic!("expected a call of the managed contract"),
    }
}

#[test]
fn test_create_upgrade_proposal_flow_wrong_params() {
    let fee: u128 = 6_000_000_0000000;
    let admin = AccountId(500);
    let c = config(fee, admin);
    let (_vaults, _pool, managing, allowed) = managed_setup();

    let invalid_time_error = create(
        &c,
        false,
        &managing,
        &allowed,
        HashId(1),
        ProposalType::UpgradeContract,
        vec![ProposerStat { amount: fee, id: AccountId(1) }],
        3600 * 5,
        dumb_params(),
        0,
    )
    .unwrap_err();
    assert_eq!(invalid_time_error.code(), 20005);

    let invalid_admin_time_error = create(
        &c,
        false,
        &managing,
        &allowed,
        HashId(2),
        ProposalType::UpgradeContract,
        vec![ProposerStat { amount: fee, id: admin }],
        3500,
        dumb_params(),
        0,
    )
    .unwrap_err();
    assert_eq!(invalid_admin_time_error.code(), 20005);

    let invalid_target_contract = create(
        &c,
        false,
        &managing,
        &allowed,
        HashId(3),
        ProposalType::UpgradeContract,
        vec![ProposerStat { amount: fee, id: admin }],
        3600 * 24 * 15,
        ProposalExecutionParams {
            upgrade_contract: UpgradeContractProposalOption::Present(
                UpgradeContractProposalParams {
                    contract_id: AccountId(4242),
                    new_contract_hash: HashId(5),
                },
            ),
            treasury_payment: TreasuryPaymentProposalOption::Absent,
            update_contract: UpdateContractProposalOption::Absent,
        },
        0,
    )
    .unwrap_err();
    assert_eq!(invalid_target_contract.code(), 20008);
}

#[test]
fn test_upgrade_proposal_flow() {
    let fee: u128 = 6_000_000_0000000;
    let c = config(fee, AccountId(500));
    let (vaults, _pool, managing, allowed) = managed_setup();
    let voter = AccountId(2);
    let new_wasm = HashId(31);
    let proposal_id = HashId(32);
    let now: u64 = 0;
    let upgrade = UpgradeContractProposalParams { contract_id: vaults, new_contract_hash: new_wasm };

    let proposal = create(
        &c,
        false,
        &managing,
        &allowed,
        proposal_id,
        ProposalType::UpgradeContract,
        vec![ProposerStat { amount: fee, id: AccountId(1) }],
        3600 * 24 * 15,
        ProposalExecutionParams {
            treasury_payment: TreasuryPaymentProposalOption::Absent,
            update_contract: UpdateContractProposalOption::Absent,
            upgrade_contract: UpgradeContractProposalOption::Present(upgrade),
        },
        now,
    )
    .unwrap();

    let voted = GovernanceContract::vote(
        &c,
        Some(proposal),
        Vec::new(),
        voter,
        proposal_id,
        ProposalVoteType::For,
        1,
        now,
    )
    .unwrap();
    let ended =
        GovernanceContract::end_proposal(Some(voted.proposal), now + 3600 * 24 * 16).unwrap();
    let (_, action) = GovernanceContract::execute_proposal_result(Some(ended)).unwrap();
    match action {
        ProposalAction::UpgradeContract(u) => assert_eq!(u, upgrade),
        _ => panic!("expected an upgrade"),
    }
}

// ---------------------------------------------------------------------------
// Further cases
// ---------------------------------------------------------------------------

fn simple_proposal(ends_at: u64) -> Proposal {
    create(
        &config(TEST_PROPOSAL_FEE, AccountId(500)),
        false,
        &Vec::new(),
        &Vec::new(),
        HashId(1),
        ProposalType::Simple,
        vec![ProposerStat { id: AccountId(1), amount: TEST_PROPOSAL_FEE }],
        3600 * 24 * 6,
        dumb_params(),
        ends_at - 3600 * 24 * 6,
    )
    .unwrap()
}

#[test]
fn voting_is_quadratic_and_once_per_voter() {
    let c = config(TEST_PROPOSAL_FEE, AccountId(500));
    let p = simple_proposal(1_000_000);
    let voter = AccountId(7);
    let first = GovernanceContract::vote(
        &c,
        Some(p),
        Vec::new(),
        voter,
        HashId(1),
        ProposalVoteType::Against,
        12,
        10,
    )
    .unwrap();
    assert_eq!(first.vote_price, 144 * TEST_VOTING_CREDIT_PRICE);
    assert_eq!(first.proposal.credits_against, 144 * TEST_VOTING_CREDIT_PRICE);
    assert_eq!(first.proposal.votes_against, 12);
    assert_eq!(first.proposal.voters_against, 1);
    assert_eq!(first.proposal.votes_for, 0);
    assert_eq!(first.votes, vec![ProposalVoteIndex { voter_id: voter, proposal_id: HashId(1) }]);

    let again = GovernanceContract::vote(
        &c,
        Some(first.proposal.clone()),
        first.votes.clone(),
        voter,
        HashId(1),
        ProposalVoteType::For,
        1,
        11,
    );
    assert_eq!(again.err(), Some(SCErrors::CanNotVote));

    let other = GovernanceContract::vote(
        &c,
        Some(first.proposal.clone()),
        first.votes.clone(),
        AccountId(8),
        HashId(1),
        ProposalVoteType::For,
        3,
        12,
    )
    .unwrap();
    assert_eq!(other.votes[0].voter_id, AccountId(8));
    assert_eq!(other.votes[1].voter_id, voter);
    assert_eq!(other.proposal.credits_for, 9 * TEST_VOTING_CREDIT_PRICE);

    let too_late = GovernanceContract::vote(
        &c,
        Some(other.proposal),
        other.votes,
        AccountId(9),
        HashId(1),
        ProposalVoteType::For,
        3,
        1_000_001,
    );
    assert_eq!(too_late.err(), Some(SCErrors::ProposalIsNotActive));

    let missing = GovernanceContract::vote(
        &c,
        None,
        Vec::new(),
        voter,
        HashId(1),
        ProposalVoteType::For,
        1,
        1,
    );
    assert_eq!(missing.err(), Some(SCErrors::ProposalDoesntExist));
}

#[test]
fn ending_and_executing_a_proposal() {
    let p = simple_proposal(1000);
    assert_eq!(
        GovernanceContract::end_proposal(Some(p.clone()), 1000).err(),
        Some(SCErrors::ProposalPeriodHasNotEnded)
    );
    // No votes for: cancelled
    let ended = GovernanceContract::end_proposal(Some(p.clone()), 1001).unwrap();
    assert_eq!(ended.status, ProposalStatus::Cancelled);
    assert_eq!(
        GovernanceContract::end_proposal(Some(ended.clone()), 2000).err(),
        Some(SCErrors::ProposalIsNotActive)
    );
    assert_eq!(
        GovernanceContract::end_proposal(None, 2000).err(),
        Some(SCErrors::ProposalDoesntExist)
    );

    let (executed, action) =
        GovernanceContract::execute_proposal_result(Some(ended)).unwrap();
    assert!(matches!(action, ProposalAction::NoAction));
    assert_eq!(
        GovernanceContract::execute_proposal_result(Some(executed)).err(),
        Some(SCErrors::ProposalAlreadyExecuted)
    );

    let mut payment = simple_proposal(1000);
    payment.proposal_type = ProposalType::TreasuryPayment;
    assert_eq!(
        GovernanceContract::execute_proposal_result(Some(payment.clone())).err(),
        Some(SCErrors::ExecutionParamsAreInvalid)
    );
    let pay = TreasuryPaymentProposalParams { recipient: AccountId(3), amount: 55 };
    payment.execution_params.treasury_payment = TreasuryPaymentProposalOption::Present(pay);
    match GovernanceContract::execute_proposal_result(Some(payment)).unwrap().1 {
        ProposalAction::TreasuryPayment(t) => assert_eq!(t, pay),
        _ => panic!("expected a treasury payment"),
    }

    let mut structural = simple_proposal(1000);
    structural.proposal_type = ProposalType::StructuralChange;
    assert_eq!(
        GovernanceContract::execute_proposal_result(Some(structural)).err(),
        Some(SCErrors::UnsupportedProposalType)
    );
}

#[test]
fn proposal_fees_and_voting_times() {
    let c = config(TEST_PROPOSAL_FEE, AccountId(500));
    let short = vec![ProposerStat { id: AccountId(1), amount: TEST_PROPOSAL_FEE - 1 }];
    assert!(!validate_proposers_payment(&TEST_PROPOSAL_FEE, &short));
    assert_eq!(
        create(
            &c,
            false,
            &Vec::new(),
            &Vec::new(),
            HashId(1),
            ProposalType::Simple,
            short,
            3600 * 24 * 6,
            dumb_params(),
            0
        )
        .err(),
        Some(SCErrors::InvalidProposalFee)
    );
    let no_fee = config(0, AccountId(500));
    assert_eq!(
        create(
            &no_fee,
            false,
            &Vec::new(),
            &Vec::new(),
            HashId(1),
            ProposalType::Simple,
            vec![],
            3600 * 24 * 6,
            dumb_params(),
            0
        )
        .err(),
        Some(SCErrors::ProposalsFeeNotSet)
    );

    let admin = AccountId(500);
    let by_admin = vec![ProposerStat { id: admin, amount: 1 }];
    let by_other = vec![ProposerStat { id: AccountId(2), amount: 1 }];
    assert!(is_voting_time_valid(3600, &ProposalType::UpgradeContract, &by_admin, &admin));
    assert!(is_voting_time_valid(7200, &ProposalType::UpgradeContract, &by_admin, &admin));
    assert!(!is_voting_time_valid(3599, &ProposalType::UpgradeContract, &by_admin, &admin));
    assert!(!is_voting_time_valid(3600 * 24 * 14, &ProposalType::UpgradeContract, &by_other, &admin));
    assert!(is_voting_time_valid(3600 * 24 * 14 + 1, &ProposalType::UpgradeContract, &by_other, &admin));
    assert!(!is_voting_time_valid(3600 * 24 * 5, &ProposalType::Simple, &by_other, &admin));
    assert!(is_voting_time_valid(3600 * 24 * 3 + 1, &ProposalType::UpdateContract, &by_other, &admin));
    assert!(!is_voting_time_valid(3600 * 24 * 7, &ProposalType::TreasuryPayment, &by_other, &admin));
    assert!(!is_voting_time_valid(u64::MAX, &ProposalType::StructuralChange, &by_other, &admin));
}

#[test]
fn can_vote_checks_votes_and_status() {
    let p = simple_proposal(1000);
    let votes = vec![ProposalVote {
        proposal_id: HashId(1),
        voter: AccountId(4),
        amount: 2,
        vote_type: ProposalVoteType::For,
    }];
    assert!(!validate_can_vote(&AccountId(4), &p, &votes));
    assert!(validate_can_vote(&AccountId(5), &p, &votes));
    let mut closed = p;
    closed.status = ProposalStatus::Denied;
    assert!(!validate_can_vote(&AccountId(5), &closed, &votes));
}
