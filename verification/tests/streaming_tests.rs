use stellar_grants::errors::ContractError;
use stellar_grants::keys::Transfer;
use stellar_grants::streaming::{accrued_amount, StreamBook};

const SENDER: u64 = 1;
const RECIPIENT: u64 = 2;
const TOKEN: u64 = 3;

fn setup(book: &mut StreamBook, transfers: &mut Vec<Transfer>, rate: i128, duration: u32) -> u32 {
    book.create_stream(SENDER, RECIPIENT, 1, TOKEN, rate, duration, 0, 0, transfers).unwrap()
}

#[test]
fn test_accrual_at_midpoint_returns_50_percent() {
    let mut book = StreamBook::new();
    let mut transfers = Vec::new();
    let stream_id = setup(&mut book, &mut transfers, 100, 100);
    let stream = book.get_stream(stream_id).unwrap();
    let accrued = accrued_amount(&stream, 50);
    assert_eq!(accrued, 5_000);
}

#[test]
fn test_double_withdraw_returns_zero_second_time() {
    let mut book = StreamBook::new();
    let mut transfers = Vec::new();
    let stream_id = setup(&mut book, &mut transfers, 100, 100);
    let first = book.withdraw_stream(RECIPIENT, stream_id, 50, &mut transfers).unwrap();
    assert!(first > 0);
    let second = book.withdraw_stream(RECIPIENT, stream_id, 50, &mut transfers).unwrap();
    assert_eq!(second, 0);
}

#[test]
fn test_cancel_returns_correct_split() {
    let mut book = StreamBook::new();
    let mut transfers = Vec::new();
    let stream_id = setup(&mut book, &mut transfers, 100, 100);
    let (sender_refund, recipient_payout) = book.cancel_stream(SENDER, stream_id, 30, &mut transfers).unwrap();
    assert_eq!(recipient_payout, 3_000);
    assert_eq!(sender_refund, 7_000);
}

#[test]
fn test_pause_resume_maintains_end_ledger() {
    let mut book = StreamBook::new();
    let mut transfers = Vec::new();
    let stream_id = setup(&mut book, &mut transfers, 1, 100);
    let original_end = book.get_stream(stream_id).unwrap().end_ledger;

    book.pause_stream(SENDER, stream_id, 20).unwrap();
    book.resume_stream(SENDER, stream_id, 30).unwrap();

    let stream_after = book.get_stream(stream_id).unwrap();
    assert_eq!(stream_after.end_ledger, original_end + 10);
}

#[test]
fn creating_a_stream_moves_the_deposit_in() {
    let mut book = StreamBook::new();
    let mut transfers = Vec::new();
    let id = setup(&mut book, &mut transfers, 100, 100);
    let s = book.get_stream(id).unwrap();
    assert_eq!(s.deposited, 10_000);
    assert_eq!(transfers.len(), 1);
    assert_eq!(transfers[0].amount, 10_000);
    assert_eq!(transfers[0].from, SENDER);
}

#[test]
fn stream_errors() {
    let mut book = StreamBook::new();
    let mut transfers = Vec::new();
    assert_eq!(book.create_stream(SENDER, RECIPIENT, 1, TOKEN, 0, 10, 0, 0, &mut transfers), Err(ContractError::InvalidInput));
    assert_eq!(book.get_stream(5).unwrap_err(), ContractError::StreamNotFound);
    let id = setup(&mut book, &mut transfers, 10, 10);
    assert_eq!(book.cancel_stream(RECIPIENT, id, 1, &mut transfers), Err(ContractError::Unauthorized));
    book.cancel_stream(SENDER, id, 1, &mut transfers).unwrap();
    assert_eq!(book.cancel_stream(SENDER, id, 2, &mut transfers), Err(ContractError::StreamNotActive));
}

#[test]
fn cancel_splits_what_remains() {
    let mut book = StreamBook::new();
    let mut transfers = Vec::new();
    let id = setup(&mut book, &mut transfers, 7, 13);
    book.withdraw_stream(RECIPIENT, id, 5, &mut transfers).unwrap();
    let (refund, payout) = book.cancel_stream(SENDER, id, 9, &mut transfers).unwrap();
    assert_eq!(refund + payout + 35, 91);
}

#[test]
fn paused_ledgers_accrue_nothing() {
    let mut book = StreamBook::new();
    let mut transfers = Vec::new();
    let stream_id = setup(&mut book, &mut transfers, 1, 100);
    book.pause_stream(SENDER, stream_id, 20).unwrap();
    assert_eq!(accrued_amount(&book.get_stream(stream_id).unwrap(), 25), 0);
    book.resume_stream(SENDER, stream_id, 30).unwrap();
    let stream = book.get_stream(stream_id).unwrap();
    assert_eq!((stream.start_ledger, stream.end_ledger), (10, 110));
    assert_eq!(accrued_amount(&stream, 30), 20);
    assert_eq!(accrued_amount(&stream, 110), 100);
}
