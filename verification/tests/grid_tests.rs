use auto_trade::strategies::grid::{GridBook, GridStatus, OrderSide};
use auto_trade::AutoTradeError;

const USER: u64 = 4;
const NOW: u64 = 1_000;
const SEQ: u32 = 0;

fn grid_at(price: i128) -> (GridBook, u64) {
    let mut book = GridBook::new();
    book.set_mock_price(1, price);
    let id = book.initialize_grid_strategy(USER, 1, 2_000, 1_000, 10, 10_000).unwrap();
    book.place_grid_orders(id, SEQ).unwrap();
    (book, id)
}

#[test]
fn test_initialize_grid_success() {
    let mut book = GridBook::new();
    let id = book.initialize_grid_strategy(USER, 1, 2_000, 1_000, 10, 10_000).unwrap();
    assert_eq!(id, 0);
    let s = book.load(id).unwrap();
    assert_eq!(s.grid_config.num_grids, 10);
    assert_eq!(s.grid_config.upper_price, 2_000);
    assert_eq!(s.grid_config.lower_price, 1_000);
    assert_eq!(s.grid_config.grid_spacing, 111);
    assert_eq!(s.grid_config.order_size_per_grid, 1_000);
    assert_eq!(s.status, GridStatus::Initializing);
}

#[test]
fn test_initialize_invalid_price_range() {
    let mut book = GridBook::new();
    let err = book.initialize_grid_strategy(USER, 1, 1_000, 2_000, 10, 10_000).unwrap_err();
    assert_eq!(err, AutoTradeError::InvalidAmount);
}

#[test]
fn test_initialize_too_few_grids() {
    let mut book = GridBook::new();
    let err = book.initialize_grid_strategy(USER, 1, 2_000, 1_000, 2, 10_000).unwrap_err();
    assert_eq!(err, AutoTradeError::InvalidAmount);
}

#[test]
fn test_initialize_too_many_grids() {
    let mut book = GridBook::new();
    let err = book.initialize_grid_strategy(USER, 1, 2_000, 1_000, 51, 10_000).unwrap_err();
    assert_eq!(err, AutoTradeError::InvalidAmount);
}

#[test]
fn test_place_grid_orders_count() {
    let (book, id) = grid_at(1_500);
    let s = book.load(id).unwrap();
    assert_eq!(s.active_orders.len(), 10);
    assert_eq!(s.status, GridStatus::Active);
    assert_eq!(s.active_orders.get(0).unwrap().order_type, OrderSide::Buy);
    assert_eq!(s.active_orders.get(9).unwrap().order_type, OrderSide::Sell);
}

#[test]
fn test_place_grid_orders_skips_current_price_level() {
    let (book, id) = grid_at(1_000);
    assert_eq!(book.load(id).unwrap().active_orders.len(), 9);
    assert!(book.load(id).unwrap().active_orders.get(0).is_none());
}

#[test]
fn test_order_fill_and_rebalance() {
    let (mut book, id) = grid_at(1_500);
    let s = book.load(id).unwrap();
    let oid = s.active_orders.get(0).unwrap().order_id;
    let orders_before = s.active_orders.len();
    book.on_grid_order_filled(id, oid, 1_000, 1_000, NOW, SEQ).unwrap();
    let s = book.load(id).unwrap();
    assert_eq!(s.filled_orders.len(), 1);
    assert_eq!(s.active_orders.len(), orders_before);
}

#[test]
fn test_profit_accumulates_on_oscillation() {
    let (mut book, id) = grid_at(1_500);
    let sell_oid = book.load(id).unwrap().active_orders.get(5).unwrap().order_id;
    book.on_grid_order_filled(id, sell_oid, 1_556, 1_000, NOW, SEQ).unwrap();
    let buy_oid = book.load(id).unwrap().active_orders.get(4).unwrap().order_id;
    book.on_grid_order_filled(id, buy_oid, 1_444, 1_000, NOW, SEQ).unwrap();
    let s = book.load(id).unwrap();
    assert!(s.total_profit > 0);
    // (1556 - 1444) * 1000 / 1444
    assert_eq!(s.total_profit, 77);
}

#[test]
fn test_adjust_grid_when_price_exits_range() {
    let (mut book, id) = grid_at(1_500);
    book.set_mock_price(1, 3_000);
    book.adjust_grid_to_price_movement(id, SEQ).unwrap();
    let s = book.load(id).unwrap();
    assert_eq!(s.grid_config.upper_price, 3_500);
    assert_eq!(s.grid_config.lower_price, 2_500);
    assert_eq!(s.status, GridStatus::Active);
}

#[test]
fn test_adjust_grid_no_op_when_price_in_range() {
    let (mut book, id) = grid_at(1_500);
    book.set_mock_price(1, 1_600);
    book.adjust_grid_to_price_movement(id, SEQ).unwrap();
    let s = book.load(id).unwrap();
    assert_eq!(s.grid_config.upper_price, 2_000);
    assert_eq!(s.grid_config.lower_price, 1_000);
}

#[test]
fn test_performance_metrics() {
    let (book, id) = grid_at(1_500);
    let perf = book.calculate_grid_performance(id).unwrap();
    assert_eq!(perf.total_profit, 0);
    assert_eq!(perf.total_fills, 0);
    assert_eq!(perf.active_orders, 10);
}

#[test]
fn test_fill_unknown_order_returns_error() {
    let (mut book, id) = grid_at(1_500);
    let err = book.on_grid_order_filled(id, 9_999_999, 1_000, 1_000, NOW, SEQ).unwrap_err();
    assert_eq!(err, AutoTradeError::SignalNotFound);
}

#[test]
fn test_performance_after_profitable_round_trip() {
    let (mut book, id) = grid_at(1_500);
    let sell_oid = book.load(id).unwrap().active_orders.get(5).unwrap().order_id;
    book.on_grid_order_filled(id, sell_oid, 1_556, 1_000, NOW, SEQ).unwrap();
    let buy_oid = book.load(id).unwrap().active_orders.get(4).unwrap().order_id;
    book.on_grid_order_filled(id, buy_oid, 1_444, 1_000, NOW, SEQ).unwrap();
    let perf = book.calculate_grid_performance(id).unwrap();
    assert_eq!(perf.total_fills, 2);
    // 77 * 10_000 / 10_000 capital
    assert_eq!(perf.roi_pct, 77);
    // 2 * 10_000 / 20 expected fills
    assert_eq!(perf.fill_rate, 1_000);
    assert_eq!(perf.avg_profit_per_fill, 38);
}

#[test]
fn test_order_ids_depend_on_level_price() {
    let (book, id) = grid_at(1_500);
    let s = book.load(id).unwrap();
    // (1 * 1_000_000_007 + 1000 + 0) mod 2^64
    assert_eq!(s.active_orders.get(0).unwrap().order_id, 1_000_001_007);
}
