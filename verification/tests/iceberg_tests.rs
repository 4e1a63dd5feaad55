use auto_trade::iceberg::{AssetPair, IcebergBook, OrderSide, OrderStatus};

const NOW: u64 = 1000;
const USER: u64 = 7;

fn create_test_pair() -> AssetPair {
    AssetPair { base: "XLM".to_string(), quote: "USDC".to_string() }
}

fn new_order(book: &mut IcebergBook, total: i128, pct: u32) -> u64 {
    book.create_iceberg_order(USER, create_test_pair(), OrderSide::Buy, total, pct, 1_000_000, NOW).unwrap()
}

#[test]
fn test_create_iceberg_order() {
    let mut book = IcebergBook::new();
    let result = book.create_iceberg_order(USER, create_test_pair(), OrderSide::Buy, 10_000_000, 1000, 1_000_000, NOW);
    assert!(result.is_ok());
    let order_id = result.unwrap();
    assert_eq!(order_id, 1);
    let order = book.get_iceberg_order(order_id).unwrap();
    assert_eq!(order.total_amount, 10_000_000);
    assert_eq!(order.visible_amount, 1_000_000);
    assert_eq!(order.filled_amount, 0);
    assert_eq!(order.status, OrderStatus::Active);
}

#[test]
fn test_create_iceberg_invalid_visible_pct() {
    let mut book = IcebergBook::new();
    let result = book.create_iceberg_order(USER, create_test_pair(), OrderSide::Buy, 10_000_000, 6000, 1_000_000, NOW);
    assert!(result.is_err());
    let result = book.create_iceberg_order(USER, create_test_pair(), OrderSide::Buy, 10_000_000, 0, 1_000_000, NOW);
    assert!(result.is_err());
}

#[test]
fn test_on_sdex_fill_partial() {
    let mut book = IcebergBook::new();
    let order_id = new_order(&mut book, 10_000_000, 1000);
    let sdex_order_id = book.get_current_sdex_order(order_id).unwrap();
    let result = book.on_sdex_fill(sdex_order_id, 500_000, 1_000_000, NOW);
    assert!(result.is_ok());
    let order = book.get_iceberg_order(order_id).unwrap();
    assert_eq!(order.filled_amount, 500_000);
    assert_eq!(order.current_visible_filled, 500_000);
    assert_eq!(order.status, OrderStatus::PartiallyFilled);
}

#[test]
fn test_on_sdex_fill_replenishment() {
    let mut book = IcebergBook::new();
    let order_id = new_order(&mut book, 10_000_000, 1000);
    let sdex_order_id = book.get_current_sdex_order(order_id).unwrap();
    let result = book.on_sdex_fill(sdex_order_id, 1_000_000, 1_000_000, NOW);
    assert!(result.is_ok());
    let order = book.get_iceberg_order(order_id).unwrap();
    assert_eq!(order.filled_amount, 1_000_000);
    assert_eq!(order.current_visible_filled, 0);
    assert_eq!(order.status, OrderStatus::PartiallyFilled);
    assert!(book.get_current_sdex_order(order_id).is_ok());
}

#[test]
fn test_on_sdex_fill_complete() {
    let mut book = IcebergBook::new();
    let order_id = new_order(&mut book, 1_000_000, 5000);
    let sdex_order_id = book.get_current_sdex_order(order_id).unwrap();
    book.on_sdex_fill(sdex_order_id, 500_000, 1_000_000, NOW).unwrap();
    let sdex_order_id2 = book.get_current_sdex_order(order_id).unwrap();
    book.on_sdex_fill(sdex_order_id2, 500_000, 1_000_000, NOW).unwrap();
    let order = book.get_iceberg_order(order_id).unwrap();
    assert_eq!(order.filled_amount, 1_000_000);
    assert_eq!(order.status, OrderStatus::Filled);
}

#[test]
fn test_cancel_iceberg_order() {
    let mut book = IcebergBook::new();
    let order_id = new_order(&mut book, 10_000_000, 1000);
    let result = book.cancel_iceberg_order(order_id, USER);
    assert!(result.is_ok());
    let info = result.unwrap();
    assert_eq!(info.filled_amount, 0);
    assert_eq!(info.remaining_amount, 10_000_000);
    let order = book.get_iceberg_order(order_id).unwrap();
    assert_eq!(order.status, OrderStatus::Cancelled);
}

#[test]
fn test_cancel_unauthorized() {
    let mut book = IcebergBook::new();
    let order_id = new_order(&mut book, 10_000_000, 1000);
    let result = book.cancel_iceberg_order(order_id, 8);
    assert!(result.is_err());
}

#[test]
fn test_get_public_vs_full_view() {
    let mut book = IcebergBook::new();
    let order_id = new_order(&mut book, 10_000_000, 1000);
    let public_view = book.get_public_order_view(order_id).unwrap();
    assert_eq!(public_view.visible_amount, 1_000_000);
    let full_view = book.get_full_order_view(order_id, USER).unwrap();
    assert_eq!(full_view.total_amount, 10_000_000);
    assert_eq!(full_view.visible_amount, 1_000_000);
    assert_eq!(full_view.remaining_amount, 10_000_000);
}

#[test]
fn test_update_price() {
    let mut book = IcebergBook::new();
    let order_id = new_order(&mut book, 10_000_000, 1000);
    let result = book.update_iceberg_price(order_id, USER, 1_100_000, NOW);
    assert!(result.is_ok());
    let order = book.get_iceberg_order(order_id).unwrap();
    assert_eq!(order.price, 1_100_000);
}

#[test]
fn test_average_fill_price() {
    let mut book = IcebergBook::new();
    let order_id = new_order(&mut book, 2_000_000, 5000);
    let sdex_order_id = book.get_current_sdex_order(order_id).unwrap();
    book.on_sdex_fill(sdex_order_id, 500_000, 1_000_000, NOW).unwrap();
    book.on_sdex_fill(sdex_order_id, 500_000, 1_100_000, NOW).unwrap();
    let order = book.get_iceberg_order(order_id).unwrap();
    assert_eq!(order.avg_fill_price, 1_050_000);
}

#[test]
fn test_get_user_orders() {
    let mut book = IcebergBook::new();
    for _ in 0..3 {
        new_order(&mut book, 10_000_000, 1000);
    }
    let orders = book.get_user_orders(USER, 10);
    assert_eq!(orders.len(), 3);
}

#[test]
fn test_fill_history() {
    let mut book = IcebergBook::new();
    let order_id = new_order(&mut book, 10_000_000, 1000);
    let sdex_order_id = book.get_current_sdex_order(order_id).unwrap();
    book.on_sdex_fill(sdex_order_id, 300_000, 1_000_000, NOW).unwrap();
    book.on_sdex_fill(sdex_order_id, 400_000, 1_050_000, NOW).unwrap();
    let history = book.get_fill_history(order_id);
    assert_eq!(history.len(), 2);
    assert_eq!(history[0].filled_amount, 300_000);
    assert_eq!(history[1].filled_amount, 400_000);
    assert_eq!(history[1].total_filled, 700_000);
}

#[test]
fn fill_history_total_tracks_filled_amount() {
    let mut book = IcebergBook::new();
    let order_id = new_order(&mut book, 10_000_000, 1000);
    let sdex = book.get_current_sdex_order(order_id).unwrap();
    book.on_sdex_fill(sdex, 250_000, 1_000_000, NOW).unwrap();
    let next = book.get_current_sdex_order(order_id).unwrap();
    book.on_sdex_fill(next, 750_000, 990_000, NOW).unwrap();
    let order = book.get_iceberg_order(order_id).unwrap();
    let history = book.get_fill_history(order_id);
    assert_eq!(history.last().unwrap().total_filled, order.filled_amount);
    // The slice was used up, so a new one is shown and the counter resets.
    assert_eq!(order.current_visible_filled, 0);
    // avg = (1_000_000 * 250_000 + 990_000 * 750_000) / 1_000_000
    assert_eq!(order.avg_fill_price, 992_500);
}

#[test]
fn cancelled_order_cannot_be_cancelled_or_repriced() {
    let mut book = IcebergBook::new();
    let order_id = new_order(&mut book, 10_000_000, 1000);
    book.cancel_iceberg_order(order_id, USER).unwrap();
    assert_eq!(book.cancel_iceberg_order(order_id, USER).unwrap_err(), "Order not cancellable");
    assert_eq!(book.update_iceberg_price(order_id, USER, 2, NOW).unwrap_err(), "Order not active");
}

#[test]
fn errors_name_their_cause() {
    let mut book = IcebergBook::new();
    assert_eq!(book.create_iceberg_order(USER, create_test_pair(), OrderSide::Sell, 0, 1000, 1, NOW).unwrap_err(), "Invalid total amount");
    assert_eq!(book.create_iceberg_order(USER, create_test_pair(), OrderSide::Sell, 10, 1000, 0, NOW).unwrap_err(), "Invalid price");
    assert_eq!(book.create_iceberg_order(USER, create_test_pair(), OrderSide::Sell, 5_000, 1000, 1, NOW).unwrap_err(), "Visible amount too small");
    assert_eq!(book.on_sdex_fill(42, 1, 1, NOW).unwrap_err(), "SDEX order not mapped");
    assert_eq!(book.get_full_order_view(9, USER).unwrap_err(), "Order not found");
}

#[test]
fn sdex_id_is_time_plus_amount_plus_price() {
    let mut book = IcebergBook::new();
    let order_id = new_order(&mut book, 10_000_000, 1000);
    assert_eq!(book.get_current_sdex_order(order_id).unwrap(), 1000 + 1_000_000 + 1_000_000);
}
