use stellar_grants::grant_index::GrantIndex;
use stellar_grants::grants::GrantBook;
use stellar_grants::multi_grant::{filter_grants, get_portfolio, get_portfolio_stats, recent_grants, total_escrow_balance, PortfolioFilter};
use stellar_grants::types::{BatchResult, GrantStatus};

#[test]
fn test_portfolio_stats_aggregation() {
    let index = GrantIndex::new();
    let grants = GrantBook::new();
    let owner = 11u64;

    let stats = get_portfolio_stats(&index, &grants, owner);
    assert_eq!(stats.total_grants, 0);
    assert_eq!(stats.active_grants, 0);
    assert_eq!(stats.total_funded, 0);
}

#[test]
fn test_filter_grants_by_status() {
    let index = GrantIndex::new();
    let grants = GrantBook::new();
    let owner = 11u64;

    let filter = PortfolioFilter {
        owner: Some(owner),
        status: Some(GrantStatus::Active),
        token: None,
        category_id: None,
        min_amount: None,
        max_amount: None,
    };

    let results = filter_grants(&index, &grants, filter, 0, 10);
    assert_eq!(results.len(), 0);
}

#[test]
fn test_total_escrow_balance() {
    let index = GrantIndex::new();
    let grants = GrantBook::new();
    let owner = 11u64;
    let token = 12u64;

    let balance = total_escrow_balance(&index, &grants, owner, token);
    assert_eq!(balance, 0);
}

#[test]
fn test_recent_grants_empty() {
    let index = GrantIndex::new();
    let grants = GrantBook::new();
    let owner = 11u64;

    let recent = recent_grants(&index, &grants, owner, 5);
    assert_eq!(recent.len(), 0);
}

#[test]
fn test_batch_result_structure() {
    let result = BatchResult { successful: 5, failed: 2, total: 7 };

    assert_eq!(result.successful + result.failed, result.total);
}

#[test]
fn test_portfolio_filter_all_none() {
    let index = GrantIndex::new();
    let grants = GrantBook::new();

    let filter = PortfolioFilter { owner: None, status: None, token: None, category_id: None, min_amount: None, max_amount: None };

    let results = filter_grants(&index, &grants, filter, 0, 10);
    assert_eq!(results.len(), 0);
}

#[test]
fn test_get_portfolio_structure() {
    let index = GrantIndex::new();
    let grants = GrantBook::new();
    let owner = 11u64;

    let portfolio = get_portfolio(&index, &grants, owner);
    assert_eq!(portfolio.owner, owner);
    assert_eq!(portfolio.stats.owner, owner);
}
