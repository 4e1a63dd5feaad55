use auto_trade::twap::{AssetPair, TWAPStatus, TwapBook};

const USER: u64 = 11;
const START: u64 = 1_000;

fn pair(base: &str, quote: &str) -> AssetPair {
    AssetPair { base: base.to_string(), quote: quote.to_string() }
}

#[test]
fn test_create_twap_order() {
    let mut book = TwapBook::new();
    // 10000 over 60 minutes -> default segments max(60/5, 4) = 12
    let result = book.create_twap_order(USER, pair("XLM", "USDC"), 10000, 60, None, START);
    assert!(result.is_ok());
    let order_id = result.unwrap();
    let twap = book.get_twap_order(order_id).unwrap();
    assert_eq!(twap.user, USER);
    assert_eq!(twap.total_amount, 10000);
    assert_eq!(twap.duration_seconds, 3600);
    assert_eq!(twap.total_segments, 12);
    assert_eq!(twap.interval_seconds, 300);
    assert_eq!(twap.amount_per_segment, 10000 / 12);
    assert_eq!(twap.segments_executed, 0);
    assert_eq!(twap.status, TWAPStatus::Active);
}

#[test]
fn test_twap_segment_execution() {
    let mut book = TwapBook::new();
    let order_id = book.create_twap_order(USER, pair("XLM", "USDC"), 12000, 60, Some(12), START).unwrap();
    let before = book.get_twap_order(order_id).unwrap();
    assert_eq!(before.amount_per_segment, 1000);

    let executed = book.execute_twap_segments(START + 301);
    assert_eq!(executed.len(), 1);
    let after_1 = book.get_twap_order(order_id).unwrap();
    assert_eq!(after_1.segments_executed, 1);
    assert_eq!(after_1.filled_amount, 1000);

    let executed_2 = book.execute_twap_segments(1301 + 900);
    assert_eq!(executed_2.len(), 3);
    let after_4 = book.get_twap_order(order_id).unwrap();
    assert_eq!(after_4.segments_executed, 4);
    assert_eq!(after_4.filled_amount, 4000);
}

#[test]
fn test_twap_cancellation() {
    let mut book = TwapBook::new();
    let order_id = book.create_twap_order(USER, pair("BTC", "USD"), 6000, 60, Some(6), START).unwrap();
    book.execute_twap_segments(START + 1201);
    let summary = book.cancel_twap_order(order_id, USER).unwrap();
    assert_eq!(summary.segments_executed, 2);
    assert_eq!(summary.filled_amount, 2000);
    assert_eq!(summary.remaining_amount, 4000);
    let twap = book.get_twap_order(order_id).unwrap();
    assert_eq!(twap.status, TWAPStatus::Cancelled);
}

#[test]
fn test_twap_dynamic_adjustment() {
    let mut book = TwapBook::new();
    let order_id = book.create_twap_order(USER, pair("ETH", "USD"), 1000, 100, Some(10), START).unwrap();
    let initial_interval = book.get_twap_order(order_id).unwrap().interval_seconds;
    assert_eq!(initial_interval, 600);
    let _ = book.adjust_twap_strategy(order_id);
    let adjusted = book.get_twap_order(order_id).unwrap();
    assert_eq!(adjusted.interval_seconds, 600 * 150 / 100);
}

#[test]
fn test_order_completion() {
    let mut book = TwapBook::new();
    let order_id = book.create_twap_order(USER, pair("SOL", "USDC"), 5000, 50, Some(5), START).unwrap();
    let executed = book.execute_twap_segments(START + 3001);
    assert_eq!(executed.len(), 5);
    let twap = book.get_twap_order(order_id).unwrap();
    assert_eq!(twap.segments_executed, 5);
    assert_eq!(twap.filled_amount, 5000);
    assert_eq!(twap.status, TWAPStatus::Complete);
}

#[test]
fn test_cancel_by_other_user_is_rejected() {
    let mut book = TwapBook::new();
    let order_id = book.create_twap_order(USER, pair("XLM", "USDC"), 6000, 60, Some(6), START).unwrap();
    assert!(book.cancel_twap_order(order_id, USER + 1).is_err());
    assert_eq!(book.get_twap_order(order_id).unwrap().status, TWAPStatus::Active);
}

#[test]
fn test_zero_duration_rejected() {
    let mut book = TwapBook::new();
    assert!(book.create_twap_order(USER, pair("XLM", "USDC"), 6000, 0, None, START).is_err());
    assert!(book.create_twap_order(USER, pair("XLM", "USDC"), 6000, 60, Some(0), START).is_err());
}

#[test]
fn test_cancelled_order_not_executed() {
    let mut book = TwapBook::new();
    let order_id = book.create_twap_order(USER, pair("XLM", "USDC"), 6000, 60, Some(6), START).unwrap();
    book.cancel_twap_order(order_id, USER).unwrap();
    let executed = book.execute_twap_segments(START + 5000);
    assert_eq!(executed.len(), 0);
    assert_eq!(book.get_twap_order(order_id).unwrap().filled_amount, 0);
}
