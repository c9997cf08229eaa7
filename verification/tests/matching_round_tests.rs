use stellar_grants::errors::ContractError;
use stellar_grants::matching::MatchingBook;

const ADMIN: u64 = 1;
const TOKEN: u64 = 200;

#[test]
fn one_contribution_of_four_scores_four() {
    let mut b = MatchingBook::new();
    let mut t = Vec::new();
    let id = b.create_round(ADMIN, TOKEN, 1_000, 10, vec![7], 100, &mut t).unwrap();
    b.contribute(2, id, 7, 4, 105, 0, &mut t).unwrap();
    assert_eq!(b.compute_grant_qf_score(id, 7), (4, 4, 1));
    let a = b.compute_allocations(id, 111).unwrap();
    assert_eq!(a[0].qf_score, 4);
    // the only scored grant takes the whole pool.
    assert_eq!(a[0].match_amount, 1_000);
}

#[test]
fn pool_is_shared_by_quadratic_scores() {
    let mut b = MatchingBook::new();
    let mut t = Vec::new();
    let id = b.create_round(ADMIN, TOKEN, 1_000, 10, vec![1, 2, 3], 100, &mut t).unwrap();
    b.contribute(10, id, 1, 4, 101, 0, &mut t).unwrap();
    b.contribute(11, id, 1, 9, 101, 0, &mut t).unwrap();
    b.contribute(12, id, 2, 10, 101, 0, &mut t).unwrap();
    b.contribute(12, id, 2, 6, 102, 0, &mut t).unwrap();
    assert_eq!(b.compute_allocations(id, 110), Err(ContractError::InvalidState));
    let a = b.compute_allocations(id, 111).unwrap();
    // grant 1: (2 + 3)^2 = 25; grant 2: one contributor with 16, 4^2 = 16; total 41.
    assert_eq!((a[0].qf_score, a[0].direct_contributions, a[0].unique_contributors), (25, 13, 2));
    assert_eq!((a[1].qf_score, a[1].direct_contributions, a[1].unique_contributors), (16, 16, 1));
    assert_eq!((a[2].qf_score, a[2].match_amount), (0, 0));
    assert_eq!(a[0].match_amount, 609);
    assert_eq!(a[1].match_amount, 390);
    let stored = b.get_round(id).unwrap();
    assert!(stored.finalized);
    assert_eq!(stored.allocations, a);
    assert_eq!(b.compute_allocations(id, 112), Err(ContractError::InvalidState));
}

#[test]
fn a_round_without_contributions_matches_nothing() {
    let mut b = MatchingBook::new();
    let mut t = Vec::new();
    let id = b.create_round(ADMIN, TOKEN, 500, 10, vec![1], 0, &mut t).unwrap();
    let a = b.compute_allocations(id, 11).unwrap();
    assert_eq!((a[0].qf_score, a[0].match_amount), (0, 0));
    assert_eq!(b.compute_allocations(99, 11), Err(ContractError::InvalidInput));
}
