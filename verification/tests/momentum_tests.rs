use auto_trade::store::OrdMap;
use auto_trade::strategies::momentum::{
    calculate_momentum_confidence, calculate_rate_of_change, calculate_rsi_from_prices, calculate_trend_strength,
    AssetPair, MomentumBook, MomentumIndicators, MomentumSignal, MomentumStrategy, TradeDirection,
};
use auto_trade::AutoTradeError;

fn setup_test_prices() -> Vec<i128> {
    vec![100, 102, 105, 108, 110, 112, 115, 118, 120, 122, 125, 127, 128, 130, 132, 135, 138, 140, 142, 145]
}

fn setup_test_prices_downtrend() -> Vec<i128> {
    vec![100, 98, 95, 92, 90, 88, 85, 82, 80, 78, 75, 73, 72, 70, 68, 65, 62, 60, 58, 55]
}

fn strategy(asset_pairs: Vec<AssetPair>, ranking_enabled: bool) -> MomentumStrategy {
    MomentumStrategy {
        strategy_id: 1,
        user: 7,
        asset_pairs,
        momentum_period_days: 7,
        min_momentum_threshold: 1000,
        trend_confirmation_required: false,
        position_size_pct: 1000,
        trailing_stop_pct: 1000,
        ranking_enabled,
    }
}

fn signal(asset_pair: AssetPair) -> MomentumSignal {
    MomentumSignal { asset_pair, direction: TradeDirection::Buy, momentum_strength: 2000, rsi: 7000, trend_strength: 7000, confidence: 8000 }
}

#[test]
fn test_calculate_rate_of_change_positive() {
    let roc = calculate_rate_of_change(&setup_test_prices(), 1).unwrap();
    assert!(roc > 4000 && roc < 5000);
}

#[test]
fn test_calculate_rate_of_change_negative() {
    let roc = calculate_rate_of_change(&setup_test_prices_downtrend(), 1).unwrap();
    assert!(roc < -4000 && roc > -5000);
}

#[test]
fn test_calculate_rsi_uptrend() {
    let rsi = calculate_rsi_from_prices(&setup_test_prices(), 14).unwrap();
    assert!(rsi > 5000);
}

#[test]
fn test_calculate_rsi_downtrend() {
    let rsi = calculate_rsi_from_prices(&setup_test_prices_downtrend(), 14).unwrap();
    assert!(rsi < 5000);
}

#[test]
fn test_calculate_trend_strength() {
    let strength = calculate_trend_strength(&setup_test_prices()).unwrap();
    assert!(strength > 6000);
}

#[test]
fn test_calculate_momentum_confidence() {
    let indicators = MomentumIndicators { rate_of_change: 3000, rsi: 7500, macd: 100, macd_signal: 50, trend_strength: 8000 };
    let confidence = calculate_momentum_confidence(&indicators).unwrap();
    assert!(confidence > 8000);
}

#[test]
fn test_execute_momentum_trade() {
    let mut book = MomentumBook::new();
    let asset_pair = AssetPair { base: 1, quote: 2 };
    book.store_momentum_strategy(strategy(vec![], false));
    let _trade_id = book.execute_momentum_trade(1, signal(asset_pair), 1000, 10000, 1000).unwrap();
    let positions = book.get_strategy_positions(1);
    assert_eq!(positions.len(), 1);
    let (key, position) = positions[0];
    assert_eq!(key, asset_pair.base);
    assert_eq!(position.asset_pair, asset_pair);
    assert_eq!(position.entry_price, 1000);
    assert_eq!(position.amount, 1000);
}

#[test]
fn test_trailing_stop_update() {
    let mut book = MomentumBook::new();
    let asset_pair = AssetPair { base: 1, quote: 2 };
    book.store_momentum_strategy(strategy(vec![], false));
    book.execute_momentum_trade(1, signal(asset_pair), 1000, 10000, 1000).unwrap();
    let closed = book.update_trailing_stops(1).unwrap();
    assert_eq!(closed.len(), 0);
}

#[test]
fn test_rebalance_by_momentum_rank() {
    let mut book = MomentumBook::new();
    let pair1 = AssetPair { base: 1, quote: 2 };
    let pair2 = AssetPair { base: 3, quote: 4 };
    book.store_momentum_strategy(strategy(vec![pair1, pair2], true));
    let ranked = vec![(pair1, 5000), (pair2, 2000)];
    let result = book.rebalance_by_momentum_rank(1, &ranked, 1);
    assert!(result.is_ok());
}

#[test]
fn test_insufficient_price_history() {
    let result = calculate_rate_of_change(&vec![], 1);
    assert_eq!(result, Err(AutoTradeError::InsufficientPriceHistory));
}

#[test]
fn rebalance_closes_positions_outside_the_top() {
    let mut book = MomentumBook::new();
    let pair1 = AssetPair { base: 1, quote: 2 };
    let pair2 = AssetPair { base: 3, quote: 4 };
    book.store_momentum_strategy(strategy(vec![pair1, pair2], true));
    book.execute_momentum_trade(1, signal(pair1), 1000, 10000, 1000).unwrap();
    book.execute_momentum_trade(1, signal(pair2), 1000, 10000, 1000).unwrap();
    book.rebalance_by_momentum_rank(1, &vec![(pair2, 5000), (pair1, 2000)], 1).unwrap();
    let positions = book.get_strategy_positions(1);
    assert_eq!(positions.len(), 1);
    assert_eq!(positions[0].1.asset_pair, pair2);
}

#[test]
fn trade_ids_and_duplicate_positions() {
    let mut book = MomentumBook::new();
    let pair = AssetPair { base: 5, quote: 2 };
    book.store_momentum_strategy(strategy(vec![], false));
    assert_eq!(book.execute_momentum_trade(1, signal(pair), 1000, 10000, 1000).unwrap(), (1u64 << 32) | 5);
    assert_eq!(book.execute_momentum_trade(1, signal(pair), 1000, 10000, 1000).unwrap_err(), AutoTradeError::PositionAlreadyExists);
    assert_eq!(book.execute_momentum_trade(2, signal(pair), 1000, 10000, 1000).unwrap_err(), AutoTradeError::StrategyNotFound);
    let positions = book.get_strategy_positions(1);
    // Stop 10% below the entry.
    assert_eq!(positions[0].1.trailing_stop_price, 900);
}

#[test]
fn ranking_orders_by_score() {
    let pair1 = AssetPair { base: 1, quote: 2 };
    let pair2 = AssetPair { base: 3, quote: 4 };
    let s = strategy(vec![pair2, pair1], true);
    let mut prices = OrdMap::new();
    let up: Vec<i128> = (0..30).map(|i| 100 + i).collect();
    let down: Vec<i128> = (0..30).map(|i| 200 - i).collect();
    prices.insert(1, up);
    prices.insert(3, down);
    let ranked = auto_trade::strategies::momentum::rank_assets_by_momentum(&s, &prices).unwrap();
    assert_eq!(ranked.len(), 2);
    assert_eq!(ranked[0].0, pair1);
    assert!(ranked[0].1 > ranked[1].1);
}

#[test]
fn test_calculate_macd() {
    let (macd, signal) = auto_trade::strategies::momentum::calculate_macd_from_prices(&setup_test_prices()).unwrap();
    assert!(macd > 0);
    assert!(signal >= 0);
}

#[test]
fn test_check_momentum_signals_buy() {
    let pair = AssetPair { base: 1, quote: 2 };
    let s = strategy(vec![], false);
    let sig = auto_trade::strategies::momentum::check_momentum_signals(&s, pair, &setup_test_prices()).unwrap();
    assert!(sig.is_some());
    let sig = sig.unwrap();
    assert_eq!(sig.asset_pair, pair);
    assert!(matches!(sig.direction, TradeDirection::Buy));
    assert!(sig.confidence > 0);
}

#[test]
fn test_check_momentum_signals_sell() {
    let pair = AssetPair { base: 1, quote: 2 };
    let s = strategy(vec![], false);
    let sig = auto_trade::strategies::momentum::check_momentum_signals(&s, pair, &setup_test_prices_downtrend()).unwrap();
    assert!(sig.is_some());
    let sig = sig.unwrap();
    assert_eq!(sig.asset_pair, pair);
    assert!(matches!(sig.direction, TradeDirection::Sell));
}

#[test]
fn test_rank_assets_by_momentum() {
    let pair1 = AssetPair { base: 1, quote: 2 };
    let pair2 = AssetPair { base: 3, quote: 4 };
    let s = strategy(vec![pair1, pair2], true);
    let mut prices = OrdMap::new();
    prices.insert(1, setup_test_prices());
    prices.insert(3, setup_test_prices_downtrend());
    let ranked = auto_trade::strategies::momentum::rank_assets_by_momentum(&s, &prices).unwrap();
    assert!(ranked.len() >= 1);
    let (first_pair, first_score) = ranked[0];
    assert_eq!(first_pair, pair1);
    assert!(first_score > 0);
}

#[test]
fn test_momentum_threshold_filtering() {
    let pair = AssetPair { base: 1, quote: 2 };
    let mut s = strategy(vec![], false);
    s.min_momentum_threshold = 10000;
    let sig = auto_trade::strategies::momentum::check_momentum_signals(&s, pair, &setup_test_prices()).unwrap();
    assert!(sig.is_none());
}

#[test]
fn macd_over_short_history_uses_all_prices() {
    // 3 prices: both averages over all of them
    assert_eq!(auto_trade::strategies::momentum::calculate_macd_from_prices(&vec![10, 20, 30]), Ok((0, 0)));
    // 12 prices 1..=12: short average 6, long average 6
    let p: Vec<i128> = (1..=12).collect();
    assert_eq!(auto_trade::strategies::momentum::calculate_macd_from_prices(&p), Ok((0, 0)));
    // 26 prices 1..=26: short average of 15..=26 is 20, long is 13
    let q: Vec<i128> = (1..=26).collect();
    assert_eq!(auto_trade::strategies::momentum::calculate_macd_from_prices(&q), Ok((7, 6)));
    assert!(auto_trade::strategies::momentum::calculate_macd_from_prices(&vec![]).is_err());
}

#[test]
fn confidence_above_documented_trend_range_is_capped() {
    let indicators = MomentumIndicators { rate_of_change: 10, rsi: 5000, macd: 0, macd_signal: 0, trend_strength: 80_000 };
    assert_eq!(calculate_momentum_confidence(&indicators).unwrap(), 10_000);
    let indicators = MomentumIndicators { rate_of_change: -10, rsi: 5000, macd: 0, macd_signal: 0, trend_strength: 20_000 };
    assert_eq!(calculate_momentum_confidence(&indicators).unwrap(), 100 + 1000 + 5000);
}
