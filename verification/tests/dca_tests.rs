use auto_trade::strategies::dca::{calculate_expected_purchases, interval_secs, DCAFrequency, DCAStatus, DcaBook};
use auto_trade::AutoTradeError;

const USER: u64 = 8;
const DAY: u64 = 86_400;
const START: u64 = 1_000;

fn book_with_funds(balance: i128) -> (DcaBook, u64) {
    let mut b = DcaBook::new();
    b.set_price(1, 200);
    b.set_balance(USER, balance);
    let id = b.create_dca_strategy(USER, 1, 1_000, DCAFrequency::Daily, Some(30), START).unwrap();
    (b, id)
}

#[test]
fn intervals() {
    assert_eq!(interval_secs(DCAFrequency::Daily), DAY);
    assert_eq!(interval_secs(DCAFrequency::Weekly), 7 * DAY);
    assert_eq!(interval_secs(DCAFrequency::Custom(90)), 90);
}

#[test]
fn create_rejects_non_positive_amount() {
    let mut b = DcaBook::new();
    assert_eq!(b.create_dca_strategy(USER, 1, 0, DCAFrequency::Daily, None, START), Err(AutoTradeError::InvalidAmount));
}

#[test]
fn first_purchase_is_due_at_start() {
    let (b, id) = book_with_funds(1_000_000);
    assert_eq!(b.is_purchase_due(id, START), Ok(true));
    assert_eq!(b.is_purchase_due(id, START - 1), Ok(false));
}

#[test]
fn purchase_records_totals_and_average() {
    let (mut b, id) = book_with_funds(1_000_000);
    b.execute_dca_purchase(id, START).unwrap();
    let s = b.get_dca_strategy(id).unwrap();
    assert_eq!(s.total_invested, 1_000);
    // 1_000 * 1_000_000 / 200
    assert_eq!(s.total_amount_acquired, 5_000_000);
    assert_eq!(s.average_entry_price, 200);
    assert_eq!(s.purchases.len(), 1);
    assert_eq!(b.is_purchase_due(id, START + 10), Ok(false));
    assert_eq!(b.is_purchase_due(id, START + DAY), Ok(true));
}

#[test]
fn insufficient_funds_pause_the_strategy() {
    let (mut b, id) = book_with_funds(10);
    assert_eq!(b.execute_dca_purchase(id, START), Err(AutoTradeError::InsufficientBalance));
    assert_eq!(b.get_dca_strategy(id).unwrap().status, DCAStatus::Paused);
    assert_eq!(b.execute_dca_purchase(id, START), Err(AutoTradeError::DcaStrategyInactive));
}

#[test]
fn strategy_completes_at_its_end() {
    let (mut b, id) = book_with_funds(1_000_000);
    assert_eq!(b.execute_dca_purchase(id, START + 30 * DAY), Err(AutoTradeError::DcaEndTimeReached));
    assert_eq!(b.get_dca_strategy(id).unwrap().status, DCAStatus::Completed);
}

#[test]
fn due_purchases_run_in_batch() {
    let (mut b, id) = book_with_funds(1_000_000);
    let ran = b.execute_due_dca_purchases(START);
    assert_eq!(ran, vec![id]);
    assert!(b.execute_due_dca_purchases(START + 1).is_empty());
}

#[test]
fn missed_purchases_are_made_up() {
    let (mut b, id) = book_with_funds(1_000_000);
    let s = b.get_dca_strategy(id).unwrap();
    assert_eq!(calculate_expected_purchases(&s, START + 3 * DAY), 3);
    let made = b.handle_missed_dca_purchases(id, START + 3 * DAY).unwrap();
    assert_eq!(made, 3);
    assert_eq!(b.get_dca_strategy(id).unwrap().purchases.len(), 3);
}

#[test]
fn pause_and_resume() {
    let (mut b, id) = book_with_funds(1_000_000);
    b.pause_dca_strategy(id).unwrap();
    assert_eq!(b.is_purchase_due(id, START), Ok(false));
    b.resume_dca_strategy(id).unwrap();
    assert_eq!(b.is_purchase_due(id, START), Ok(true));
}

#[test]
fn schedule_update_changes_amount() {
    let (mut b, id) = book_with_funds(1_000_000);
    b.update_dca_schedule(id, Some(2_000), Some(DCAFrequency::Weekly)).unwrap();
    let s = b.get_dca_strategy(id).unwrap();
    assert_eq!(s.purchase_amount, 2_000);
    assert_eq!(s.frequency, DCAFrequency::Weekly);
}

#[test]
fn unknown_strategy() {
    let b = DcaBook::new();
    assert_eq!(b.is_purchase_due(5, START), Err(AutoTradeError::DcaStrategyNotFound));
}
