use stellar_grants::arbitration_pool::{ArbitrationPool, RewardsSettled, ARBITRATION_VOTING_WINDOW};
use stellar_grants::constants::CONTRACT_ACCOUNT;
use stellar_grants::errors::ContractError;

const TOKEN: u64 = 200;
const A: u64 = 11;
const B: u64 = 12;
const C: u64 = 13;
const D: u64 = 14;

fn pool_of_three(t: &mut Vec<stellar_grants::keys::Transfer>) -> ArbitrationPool {
    let mut p = ArbitrationPool::new();
    p.join_pool(A, TOKEN, 1_000, 1, t).unwrap();
    p.join_pool(B, TOKEN, 2_000, 1, t).unwrap();
    p.join_pool(C, TOKEN, 500, 1, t).unwrap();
    p
}

#[test]
fn joining_stakes_in_one_token() {
    let mut t = Vec::new();
    let mut p = pool_of_three(&mut t);
    assert_eq!(p.pool_stats(), (3, 3_500));
    assert_eq!(t.len(), 3);
    assert_eq!((t[0].from, t[0].to, t[0].amount), (A, CONTRACT_ACCOUNT, 1_000));
    assert_eq!(p.join_pool(D, 201, 10, 2, &mut t), Err(ContractError::InvalidInput));
    assert_eq!(p.join_pool(D, TOKEN, 0, 2, &mut t), Err(ContractError::InvalidInput));
    assert_eq!(p.join_pool(A, TOKEN, 10, 2, &mut t), Err(ContractError::ArbiterAlreadyJoined));
    assert_eq!(t.len(), 3);
    let a = p.get_arbiter(A).unwrap();
    assert_eq!((a.stake, a.is_active, a.joined_at), (1_000, true, 1));
    assert!(p.get_arbiter(D).is_none());
}

#[test]
fn panels_need_three_or_five_pooled_arbiters() {
    let mut t = Vec::new();
    let mut p = pool_of_three(&mut t);
    let order = vec![C, A, B];
    assert_eq!(p.assign_panel(7, 4, &order, 100), Err(ContractError::InvalidInput));
    assert_eq!(p.assign_panel(7, 5, &order, 100), Err(ContractError::InsufficientArbiters));
    assert_eq!(p.assign_panel(7, 3, &order, 100), Ok(1));
    assert_eq!(p.leave_pool(A, &mut t), Err(ContractError::ArbiterInActiveCase));
    assert_eq!(p.leave_pool(D, &mut t), Err(ContractError::ArbiterNotFound));
}

#[test]
fn voting_rules() {
    let mut t = Vec::new();
    let mut p = pool_of_three(&mut t);
    p.join_pool(D, TOKEN, 100, 1, &mut t).unwrap();
    let case = p.assign_panel(7, 3, &vec![A, B, C, D], 100).unwrap();
    assert_eq!(p.cast_arbiter_vote(A, case, true, 0, 101), Err(ContractError::InvalidInput));
    assert_eq!(p.cast_arbiter_vote(A, case, true, 101, 101), Err(ContractError::InvalidInput));
    assert_eq!(p.cast_arbiter_vote(A, 99, true, 50, 101), Err(ContractError::ArbitrationCaseNotFound));
    assert_eq!(p.cast_arbiter_vote(D, case, true, 50, 101), Err(ContractError::NotPanelMember));
    assert_eq!(
        p.cast_arbiter_vote(A, case, true, 50, 100 + ARBITRATION_VOTING_WINDOW + 1),
        Err(ContractError::VotingDeadlinePassed)
    );
    p.cast_arbiter_vote(A, case, true, 50, 101).unwrap();
    assert_eq!(p.cast_arbiter_vote(A, case, false, 50, 102), Err(ContractError::AlreadyVoted));
    // D left out of the panel can still leave.
    assert_eq!(p.leave_pool(D, &mut t), Ok(100));
}

#[test]
fn finalize_and_settle_move_stake_to_the_majority() {
    let mut t = Vec::new();
    let mut p = pool_of_three(&mut t);
    let case = p.assign_panel(7, 3, &vec![A, B, C], 100).unwrap();
    assert_eq!(p.settle_rewards(case), Err(ContractError::CaseNotFinalized));
    p.cast_arbiter_vote(A, case, true, 80, 101).unwrap();
    p.cast_arbiter_vote(B, case, true, 20, 102).unwrap();
    assert_eq!(p.finalize_case(case, 103), Err(ContractError::InvalidState));
    p.cast_arbiter_vote(C, case, false, 50, 104).unwrap();
    assert_eq!(p.finalize_case(case, 105), Ok(true));
    assert_eq!(p.finalize_case(case, 106), Err(ContractError::CaseAlreadyFinalized));
    assert_eq!(p.cast_arbiter_vote(C, case, true, 50, 106), Err(ContractError::CaseAlreadyFinalized));

    assert_eq!(p.settle_rewards(case), Ok(RewardsSettled { case_id: case, total_slashed: 50 }));
    // C loses 10% of 500; A gets 80% of the 50, B (the last of the majority) the rest.
    let (a, b, c) = (p.get_arbiter(A).unwrap(), p.get_arbiter(B).unwrap(), p.get_arbiter(C).unwrap());
    assert_eq!((a.stake, b.stake, c.stake), (1_040, 2_010, 450));
    assert_eq!((a.cases_decided, a.cases_correct), (1, 1));
    assert_eq!((c.cases_decided, c.cases_correct), (1, 0));
    assert_eq!(p.pool_stats(), (3, 3_500));
    assert_eq!(p.settle_rewards(case), Err(ContractError::InvalidState));
    assert_eq!(p.settle_rewards(9), Err(ContractError::ArbitrationCaseNotFound));

    assert_eq!(p.leave_pool(C, &mut t), Ok(450));
    let last = t.last().unwrap();
    assert_eq!((last.from, last.to, last.amount), (CONTRACT_ACCOUNT, C, 450));
    assert_eq!(p.pool_stats(), (2, 3_050));
    // rejoining reactivates the record.
    p.join_pool(C, TOKEN, 30, 200, &mut t).unwrap();
    assert_eq!(p.get_arbiter(C).unwrap().stake, 30);
    assert_eq!(p.get_arbiter(C).unwrap().joined_at, 1);
}

#[test]
fn a_case_closes_at_its_deadline() {
    let mut t = Vec::new();
    let mut p = pool_of_three(&mut t);
    let case = p.assign_panel(7, 3, &vec![A, B, C], 100).unwrap();
    p.cast_arbiter_vote(A, case, false, 10, 101).unwrap();
    assert_eq!(p.finalize_case(case, 100 + ARBITRATION_VOTING_WINDOW), Err(ContractError::InvalidState));
    // one vote against the contributor: the funder wins.
    assert_eq!(p.finalize_case(case, 100 + ARBITRATION_VOTING_WINDOW + 1), Ok(false));
    assert!(p.leave_pool(B, &mut t).is_ok());
}
