use auto_trade::strategies::pairs_trading::{
    abs_i128, calculate_correlation_from_prices, calculate_pairs_confidence, calculate_returns, PairAnalysis, PairsBook,
};
use auto_trade::AutoTradeError;

const USER: u64 = 12;

#[test]
fn configure_validates_thresholds() {
    let mut b = PairsBook::new();
    assert_eq!(b.configure_pairs_strategy(USER, 1, 2, 30, 100, 200, 1_000), Err(AutoTradeError::InvalidPairsConfig));
    assert_eq!(b.configure_pairs_strategy(USER, 1, 2, 0, 200, 100, 1_000), Err(AutoTradeError::InvalidPairsConfig));
    assert_eq!(b.configure_pairs_strategy(USER, 1, 2, 30, 200, 100, 10_001), Err(AutoTradeError::InvalidPairsConfig));
    let id = b.configure_pairs_strategy(USER, 1, 2, 30, 20_000, 5_000, 1_000).unwrap();
    assert_eq!(id, 1);
    let s = b.get_pairs_trading_strategy(USER, id).unwrap();
    assert_eq!(s.asset_a, 1);
    assert!(s.active_position.is_none());
    assert_eq!(b.get_pairs_trading_strategy(USER + 1, id).err(), Some(AutoTradeError::PairsStrategyNotFound));
}

#[test]
fn confidence_components() {
    let a = PairAnalysis { correlation: 9_000, ratio_mean: 0, ratio_std_dev: 0, current_ratio: 0, z_score: -25_000, is_cointegrated: true };
    // 900 + 2500 + 2000
    assert_eq!(calculate_pairs_confidence(&a), Ok(5_400));
    let b = PairAnalysis { correlation: 10_000, ratio_mean: 0, ratio_std_dev: 0, current_ratio: 0, z_score: 90_000, is_cointegrated: true };
    // 1000 + 3000 (capped) + 2000
    assert_eq!(calculate_pairs_confidence(&b), Ok(6_000));
}

#[test]
fn correlation_of_identical_and_mirrored_series() {
    let a = vec![100i128, 102, 104, 106, 108];
    let b = vec![108i128, 106, 104, 102, 100];
    assert_eq!(calculate_correlation_from_prices(&a, &a), Ok(10_000));
    assert_eq!(calculate_correlation_from_prices(&a, &b), Ok(-10_000));
}

#[test]
fn returns_in_basis_points() {
    assert_eq!(calculate_returns(&vec![100, 110, 99]), vec![1_000, -1_000]);
}

#[test]
fn absolute_value() {
    assert_eq!(abs_i128(-5), 5);
    assert_eq!(abs_i128(7), 7);
}
