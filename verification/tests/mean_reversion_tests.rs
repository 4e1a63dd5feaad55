use auto_trade::strategies::mean_reversion::{
    reversion_confidence, MeanReversionBook, ReversionSignal, StatisticalMetrics, TradeDirection,
};
use auto_trade::AutoTradeError;

const USER: u64 = 7;
const LOOKBACK: u64 = 14 * 86_400;

fn make_prices(base: i128, count: u32) -> Vec<i128> {
    (0..count).map(|i| base + (i as i128 % 5) - 2).collect()
}

fn varied() -> Vec<i128> {
    (0..30i128).map(|i| 100_000 + (i % 10) * 100 - 450).collect()
}

fn sell_signal(m: &StatisticalMetrics, confidence: u32) -> ReversionSignal {
    ReversionSignal {
        direction: TradeDirection::Sell,
        entry_price: m.current_price,
        z_score: m.z_score,
        mean: m.mean,
        target_price: m.mean,
        stop_loss: m.current_price + m.std_dev * 3,
        confidence,
    }
}

#[test]
fn test_create_and_get_strategy() {
    let mut book = MeanReversionBook::new();
    let id = book.create_mean_reversion_strategy(USER, 1, 14, 20_000, 5_000, 1_000, 3).unwrap();
    let s = book.get_mean_reversion_strategy(id).unwrap();
    assert_eq!(s.asset_pair, 1);
    assert_eq!(s.entry_z_score, 20_000);
    assert!(s.enabled);
}

#[test]
fn test_statistical_metrics() {
    let mut book = MeanReversionBook::new();
    book.set_history(1, LOOKBACK, make_prices(100_000, 30));
    book.set_price(1, 102_500);
    let m = book.calculate_statistical_metrics(1, 14).unwrap();
    assert!(m.mean > 0);
    assert!(m.std_dev > 0);
    assert!(m.z_score > 0);
}

#[test]
fn test_signal_detected_when_overbought() {
    let mut book = MeanReversionBook::new();
    book.set_history(1, LOOKBACK, varied());
    book.set_price(1, 101_500);
    let id = book.create_mean_reversion_strategy(USER, 1, 14, 20_000, 5_000, 1_000, 3).unwrap();
    let signal = book.check_mean_reversion_signals(id).unwrap();
    if let Some(s) = signal {
        assert_eq!(s.direction, TradeDirection::Sell);
        assert_eq!(s.target_price, s.mean);
    }
}

#[test]
fn test_execute_and_close_position() {
    let mut book = MeanReversionBook::new();
    book.set_history(1, LOOKBACK, varied());
    book.set_price(1, 101_500);
    book.set_balance(USER, 1_000_000);
    let id = book.create_mean_reversion_strategy(USER, 1, 14, 5_000, 2_000, 1_000, 3).unwrap();
    let metrics = book.calculate_statistical_metrics(1, 14).unwrap();
    let signal = sell_signal(&metrics, reversion_confidence(&metrics));
    let pos_id = book.execute_mean_reversion_trade(id, signal, 1_000_000).unwrap();
    assert_eq!(pos_id, 0);
    book.set_price(1, metrics.mean);
    let closed = book.check_reversion_exits(id).unwrap();
    assert_eq!(closed.len(), 1);
    assert_eq!(closed[0], pos_id);
}

#[test]
fn test_stop_loss_closes_position() {
    let mut book = MeanReversionBook::new();
    book.set_history(1, LOOKBACK, varied());
    book.set_price(1, 101_500);
    book.set_balance(USER, 1_000_000);
    let id = book.create_mean_reversion_strategy(USER, 1, 14, 5_000, 2_000, 1_000, 3).unwrap();
    let metrics = book.calculate_statistical_metrics(1, 14).unwrap();
    let stop = metrics.current_price + metrics.std_dev * 3;
    book.execute_mean_reversion_trade(id, sell_signal(&metrics, 7_000), 1_000_000).unwrap();
    book.set_price(1, stop + 1);
    let closed = book.check_reversion_exits(id).unwrap();
    assert_eq!(closed.len(), 1);
}

#[test]
fn test_max_positions_enforced() {
    let mut book = MeanReversionBook::new();
    book.set_history(1, LOOKBACK, varied());
    book.set_price(1, 101_500);
    book.set_balance(USER, 1_000_000);
    let id = book.create_mean_reversion_strategy(USER, 1, 14, 5_000, 2_000, 1_000, 1).unwrap();
    let metrics = book.calculate_statistical_metrics(1, 14).unwrap();
    book.execute_mean_reversion_trade(id, sell_signal(&metrics, 7_000), 1_000_000).unwrap();
    let err = book.execute_mean_reversion_trade(id, sell_signal(&metrics, 7_000), 1_000_000).unwrap_err();
    assert_eq!(err, AutoTradeError::PositionLimitExceeded);
}

#[test]
fn test_insufficient_history_error() {
    let mut book = MeanReversionBook::new();
    book.set_history(1, LOOKBACK, vec![100_000; 5]);
    book.set_price(1, 100_000);
    let id = book.create_mean_reversion_strategy(USER, 1, 14, 20_000, 5_000, 1_000, 3).unwrap();
    let err = book.check_mean_reversion_signals(id).unwrap_err();
    assert_eq!(err, AutoTradeError::MrInsufficientHistory);
}

#[test]
fn statistics_of_a_known_series() {
    let mut book = MeanReversionBook::new();
    // 15 prices at 90 and 15 at 110: mean 100, every deviation 10.
    let mut prices = vec![90i128; 15];
    prices.extend(vec![110i128; 15]);
    book.set_history(2, LOOKBACK, prices);
    book.set_price(2, 120);
    let m = book.calculate_statistical_metrics(2, 14).unwrap();
    assert_eq!(m.mean, 100);
    // variance = 30 * 100 / 30 = 100, sqrt 10.
    assert_eq!(m.std_dev, 10);
    assert_eq!(m.z_score, (20 * 10_000) / 10);
}

#[test]
fn flat_history_has_no_volatility() {
    let mut book = MeanReversionBook::new();
    book.set_history(3, LOOKBACK, vec![500i128; 30]);
    book.set_price(3, 500);
    assert_eq!(book.calculate_statistical_metrics(3, 14).unwrap_err(), AutoTradeError::MrLowVolatility);
}

#[test]
fn invalid_strategy_parameters_are_refused() {
    let mut book = MeanReversionBook::new();
    assert_eq!(book.create_mean_reversion_strategy(USER, 1, 14, 0, 5_000, 1_000, 3).unwrap_err(), AutoTradeError::InvalidAmount);
    assert_eq!(book.create_mean_reversion_strategy(USER, 1, 14, 20_000, 5_000, 1_000, 0).unwrap_err(), AutoTradeError::InvalidAmount);
}
