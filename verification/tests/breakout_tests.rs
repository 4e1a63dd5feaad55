use auto_trade::iceberg::AssetPair;
use auto_trade::strategies::breakout::{
    analyze_breakout_performance, analyze_breakout_performance_on, calculate_breakout_confidence,
    check_breakout_exits_on, create_breakout_signal, detect_breakout, detect_breakout_with,
    detect_false_breakout, execute_breakout_trade, handle_false_breakout, handle_false_breakout_on,
    identify_key_levels, identify_key_levels_from, update_key_levels_on, update_key_levels_on_breakout,
    BreakDirection, BreakoutPosition, BreakoutStrategy, Candle, LevelType, PositionStatus, PriceLevel,
};
use auto_trade::AutoTradeError;

fn sample_position(direction: BreakDirection, breakout_level: i128) -> BreakoutPosition {
    BreakoutPosition {
        position_id: 1,
        direction,
        breakout_level,
        entry_price: breakout_level,
        entry_volume: 200,
        stop_loss: breakout_level - 50,
        target_price: breakout_level + 100,
        amount: 1_000,
        status: PositionStatus::Open,
        entry_time: 0,
    }
}

fn pair() -> AssetPair {
    AssetPair { base: "XLM".to_string(), quote: "USDC".to_string() }
}

fn strategy(positions: Vec<BreakoutPosition>, levels: Vec<PriceLevel>) -> BreakoutStrategy {
    BreakoutStrategy {
        strategy_id: 1,
        user: 7,
        asset_pair: pair(),
        lookback_period_days: 1,
        volume_multiplier: 150,
        confirmation_candles: 2,
        position_size_pct: 1_000,
        active_positions: positions,
        key_levels: levels,
        next_position_id: 1,
    }
}

#[test]
fn false_breakout_detected_for_upward_reversal() {
    let position = sample_position(BreakDirection::Upward, 1000);
    assert!(detect_false_breakout(&position, 999));
}

#[test]
fn false_breakout_detected_for_downward_reversal() {
    let position = sample_position(BreakDirection::Downward, 1000);
    assert!(detect_false_breakout(&position, 1001));
}

#[test]
fn no_false_breakout_when_price_stays_on_correct_side() {
    let upward_position = sample_position(BreakDirection::Upward, 1000);
    let downward_position = sample_position(BreakDirection::Downward, 1000);
    assert!(!detect_false_breakout(&upward_position, 1005));
    assert!(!detect_false_breakout(&downward_position, 995));
}

#[test]
fn breakout_confidence_has_expected_floor_and_caps() {
    let low = calculate_breakout_confidence(1, 100).unwrap();
    assert_eq!(low, 3000);
    let high = calculate_breakout_confidence(10, 500).unwrap();
    assert_eq!(high, 10000);
}

#[test]
fn create_breakout_signal_sets_upward_targets_and_stops() {
    let level = PriceLevel { price: 10_000, level_type: LevelType::Resistance, strength: 3, last_test: 0 };
    let signal = create_breakout_signal(&level, BreakDirection::Upward, 10_050, 2_000, 1_000).unwrap();
    assert_eq!(signal.target_price, 10_100);
    assert_eq!(signal.stop_loss, 9_975);
    assert_eq!(signal.volume_ratio, 200);
}

#[test]
fn create_breakout_signal_sets_downward_targets_and_stops() {
    let level = PriceLevel { price: 10_000, level_type: LevelType::Support, strength: 2, last_test: 0 };
    let signal = create_breakout_signal(&level, BreakDirection::Downward, 9_950, 1_500, 1_000).unwrap();
    assert_eq!(signal.target_price, 9_900);
    assert_eq!(signal.stop_loss, 10_025);
    assert_eq!(signal.volume_ratio, 150);
}

#[test]
fn breakout_signal_confidence_combines_strength_and_volume() {
    let level = PriceLevel { price: 10_000, level_type: LevelType::Resistance, strength: 3, last_test: 0 };
    let signal = create_breakout_signal(&level, BreakDirection::Upward, 10_050, 2_000, 1_000).unwrap();
    // 2000 base + 3000 strength + min(100 * 20, 4000) volume
    assert_eq!(signal.confidence, 7_000);
    let no_avg = create_breakout_signal(&level, BreakDirection::Upward, 10_050, 2_000, 0).unwrap();
    assert_eq!(no_avg.volume_ratio, 100);
}

fn candle(i: u64, high: i128, low: i128) -> Candle {
    Candle { timestamp: i, open: low, high, low, close: high, volume: 10 }
}

#[test]
fn key_levels_need_twenty_candles() {
    let candles: Vec<Candle> = (0..19).map(|i| candle(i, 100, 90)).collect();
    assert_eq!(identify_key_levels_from(&candles).unwrap_err(), AutoTradeError::InsufficientPriceHistory);
}

#[test]
fn key_levels_cluster_and_sort_by_strength() {
    // Flat series with two peaks near 200 and one trough at 50.
    // (Tolerance is 0.2% of the price, so prices are large enough for it.)
    let mut candles: Vec<Candle> = (0..24).map(|i| candle(i, 10_000, 9_000)).collect();
    candles[5].high = 20_000;
    candles[12].high = 20_010;
    candles[18].low = 5_000;
    let levels = identify_key_levels_from(&candles).unwrap();
    assert_eq!(levels.len(), 2);
    assert_eq!(levels[0].price, 20_000);
    assert_eq!(levels[0].level_type, LevelType::Resistance);
    assert_eq!(levels[0].strength, 2);
    assert_eq!(levels[0].last_test, 12);
    assert_eq!(levels[1].price, 5_000);
    assert_eq!(levels[1].level_type, LevelType::Support);
    assert_eq!(levels[1].strength, 1);
}

#[test]
fn detect_breakout_with_finds_confirmed_resistance_break() {
    let levels = vec![
        PriceLevel { price: 1_000, level_type: LevelType::Support, strength: 1, last_test: 0 },
        PriceLevel { price: 10_000, level_type: LevelType::Resistance, strength: 3, last_test: 0 },
    ];
    let current = Candle { timestamp: 5, open: 10_000, high: 10_100, low: 10_010, close: 10_050, volume: 2_000 };
    let recent = vec![current];
    let signal = detect_breakout_with(150, &levels, &current, 1_000, &recent).unwrap().unwrap();
    assert_eq!(signal.direction, BreakDirection::Upward);
    assert_eq!(signal.breakout_level, 10_000);
    // Not enough volume: no signal.
    assert!(detect_breakout_with(250, &levels, &current, 1_000, &recent).unwrap().is_none());
    // A recent candle dipped back below the level: not confirmed.
    let dipped = vec![Candle { low: 9_990, ..current }];
    assert!(detect_breakout_with(150, &levels, &current, 1_000, &dipped).unwrap().is_none());
}

#[test]
fn exits_close_positions_at_target_or_stop() {
    let mut s = strategy(
        vec![sample_position(BreakDirection::Upward, 1_000), BreakoutPosition { position_id: 2, ..sample_position(BreakDirection::Upward, 1_050) }],
        vec![],
    );
    let closed = check_breakout_exits_on(&mut s, 1_100);
    assert_eq!(closed, vec![1]);
    assert_eq!(s.active_positions[0].status, PositionStatus::Closed);
    assert_eq!(s.active_positions[1].status, PositionStatus::Open);
}

#[test]
fn false_breakout_handling_closes_matching_position() {
    let mut s = strategy(vec![sample_position(BreakDirection::Upward, 1_000)], vec![]);
    handle_false_breakout_on(&mut s, 1);
    assert_eq!(s.active_positions[0].status, PositionStatus::Closed);
}

#[test]
fn closing_a_false_breakout_twice_changes_nothing_more() {
    let mut s = strategy(
        vec![sample_position(BreakDirection::Upward, 1_000), BreakoutPosition { position_id: 2, ..sample_position(BreakDirection::Upward, 1_050) }],
        vec![],
    );
    handle_false_breakout_on(&mut s, 2);
    let once = s.active_positions.clone();
    handle_false_breakout_on(&mut s, 2);
    assert_eq!(s.active_positions, once);
    assert_eq!(s.active_positions[0].status, PositionStatus::Open);
    assert_eq!(s.active_positions[1].status, PositionStatus::Closed);
    assert_eq!(s.strategy_id, 1);
    assert_eq!(s.next_position_id, 1);
}

#[test]
fn broken_resistance_becomes_support() {
    let mut s = strategy(vec![], vec![
        PriceLevel { price: 10_000, level_type: LevelType::Resistance, strength: 2, last_test: 0 },
        PriceLevel { price: 12_000, level_type: LevelType::Resistance, strength: 1, last_test: 0 },
    ]);
    update_key_levels_on(&mut s, 10_010, BreakDirection::Upward);
    assert_eq!(s.key_levels[0].level_type, LevelType::Support);
    assert_eq!(s.key_levels[0].strength, 3);
    assert_eq!(s.key_levels[1].level_type, LevelType::Resistance);
}

#[test]
fn performance_counts_closed_positions() {
    let mut win = sample_position(BreakDirection::Upward, 1_000);
    win.status = PositionStatus::Closed;
    let mut open = sample_position(BreakDirection::Upward, 1_000);
    open.position_id = 2;
    let s = strategy(vec![win, open], vec![]);
    let perf = analyze_breakout_performance_on(&s, 1_100).unwrap();
    assert_eq!(perf.total_breakouts_detected, 2);
    assert_eq!(perf.successful_breakouts, 1);
    assert_eq!(perf.false_breakouts, 0);
    // (1100 - 1000) * 10000 / 1000 = 1000 bps, averaged over 2 positions
    assert_eq!(perf.avg_breakout_profit_pct, 500);
    assert_eq!(perf.avg_volume_on_breakout, 100);
}

#[test]
fn stored_strategy_operations_report_missing_strategy() {
    let signal = create_breakout_signal(
        &PriceLevel { price: 10_000, level_type: LevelType::Resistance, strength: 3, last_test: 0 },
        BreakDirection::Upward, 10_050, 2_000, 1_000).unwrap();
    assert_eq!(detect_breakout(1).unwrap_err(), AutoTradeError::StrategyNotFound);
    assert_eq!(execute_breakout_trade(1, &signal).unwrap_err(), AutoTradeError::StrategyNotFound);
    assert_eq!(handle_false_breakout(1, 1).unwrap_err(), AutoTradeError::StrategyNotFound);
    assert_eq!(update_key_levels_on_breakout(1, 100, BreakDirection::Upward).unwrap_err(), AutoTradeError::StrategyNotFound);
    assert_eq!(analyze_breakout_performance(1).unwrap_err(), AutoTradeError::StrategyNotFound);
    assert_eq!(identify_key_levels(&pair(), 1).unwrap_err(), AutoTradeError::InsufficientPriceHistory);
}

#[test]
fn successive_position_ids_differ() {
    let mut counter: u64 = 41;
    let a = auto_trade::strategies::breakout::generate_position_id(&mut counter);
    let b = auto_trade::strategies::breakout::generate_position_id(&mut counter);
    assert_eq!(a, 41);
    assert_eq!(b, 42);
    assert_ne!(a, b);
    let mut last: u64 = u64::MAX;
    let c = auto_trade::strategies::breakout::generate_position_id(&mut last);
    assert_eq!(c, u64::MAX);
    assert_eq!(last, 0);
}
