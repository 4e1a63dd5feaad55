use auto_trade::positions::{PositionBook, PositionStatus};

const USER: u64 = 7;

#[test]
fn test_open_position() {
    let mut book = PositionBook::new();
    let trade_id = book.open_position(USER, 1, 42, 1000, 500, 400, 700, 1000);
    let pos = book.get_position(trade_id).unwrap();
    assert_eq!(pos.user, USER);
    assert_eq!(pos.signal_id, 1);
    assert_eq!(pos.asset_pair, 42);
    assert_eq!(pos.amount, 1000);
    assert_eq!(pos.entry_price, 500);
    assert_eq!(pos.stop_loss, 400);
    assert_eq!(pos.take_profit, 700);
    assert_eq!(pos.status, PositionStatus::Open);
    assert_eq!(pos.pnl, 0);
    assert_eq!(pos.opened_at, 1000);
}

#[test]
fn test_close_position_profit() {
    let mut book = PositionBook::new();
    let trade_id = book.open_position(USER, 1, 42, 100, 500, 400, 700, 1000);
    let result = book.close_position(USER, trade_id, 600, 2000).unwrap();
    assert_eq!(result.pnl, 10000);
    assert_eq!(result.exit_price, 600);
    assert_eq!(result.closed_at, 2000);
    let pos = book.get_position(trade_id).unwrap();
    assert_eq!(pos.status, PositionStatus::Closed);
}

#[test]
fn test_close_position_loss() {
    let mut book = PositionBook::new();
    let trade_id = book.open_position(USER, 1, 42, 100, 500, 400, 700, 1000);
    let result = book.close_position(USER, trade_id, 300, 2000).unwrap();
    assert_eq!(result.pnl, -20000);
}

#[test]
fn test_cannot_close_others_position() {
    let mut book = PositionBook::new();
    let trade_id = book.open_position(USER, 1, 42, 100, 500, 400, 700, 1000);
    assert!(book.close_position(8, trade_id, 600, 1000).is_none());
}

#[test]
fn test_cannot_close_twice() {
    let mut book = PositionBook::new();
    let trade_id = book.open_position(USER, 1, 42, 100, 500, 400, 700, 1000);
    book.close_position(USER, trade_id, 600, 1000).unwrap();
    assert!(book.close_position(USER, trade_id, 700, 1000).is_none());
}

#[test]
fn test_get_all_positions() {
    let mut book = PositionBook::new();
    let id1 = book.open_position(USER, 1, 42, 100, 500, 400, 700, 1000);
    let _id2 = book.open_position(USER, 2, 43, 200, 600, 500, 800, 1000);
    book.close_position(USER, id1, 550, 1000);
    assert_eq!(book.get_all_positions(USER).len(), 2);
    assert_eq!(book.get_open_positions(USER).len(), 1);
    let closed = book.get_closed_positions(USER);
    assert_eq!(closed.len(), 1);
    assert_eq!(closed[0].pnl, (550 - 500) * 100);
}

#[test]
fn test_unique_trade_ids() {
    let mut book = PositionBook::new();
    let id1 = book.open_position(USER, 1, 42, 100, 500, 400, 700, 1000);
    let id2 = book.open_position(USER, 1, 42, 100, 500, 400, 700, 1000);
    assert_ne!(id1, id2);
}

#[test]
fn other_users_positions_are_not_listed() {
    let mut book = PositionBook::new();
    book.open_position(USER, 1, 42, 100, 500, 400, 700, 1000);
    book.open_position(9, 1, 42, 100, 500, 400, 700, 1000);
    assert_eq!(book.get_all_positions(USER).len(), 1);
    assert_eq!(book.get_all_positions(9).len(), 1);
    assert!(book.get_all_positions(10).is_empty());
}
