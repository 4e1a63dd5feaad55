use auto_trade::risk::RiskBook;
use auto_trade::strategies::stat_arb::{
    augmented_dickey_fuller_test, calculate_hedge_ratios_ols, calculate_regression_coefficient, construct_portfolio,
    StatArbBook, StatArbSignalAction, STAT_ARB_SCALE,
};
use auto_trade::AutoTradeError;

const USER: u64 = 3;

fn aligned() -> Vec<Vec<i128>> {
    vec![vec![100, 102, 104, 106], vec![50, 51, 52, 53], vec![25, 26, 27, 28]]
}

fn seeded(h1: &[i128], h2: &[i128], h3: &[i128]) -> (StatArbBook, RiskBook) {
    let mut book = StatArbBook::new();
    let mut risk = RiskBook::new();
    book.set_price_history(&mut risk, 1, h1.to_vec()).unwrap();
    book.set_price_history(&mut risk, 2, h2.to_vec()).unwrap();
    book.set_price_history(&mut risk, 3, h3.to_vec()).unwrap();
    (book, risk)
}

#[test]
fn hedge_ratio_calculation_returns_expected_relative_weights() {
    let hedge_ratios = calculate_hedge_ratios_ols(&aligned()).unwrap();
    assert_eq!(hedge_ratios[0], STAT_ARB_SCALE);
    assert_eq!(hedge_ratios[1], -20_000);
    assert_eq!(hedge_ratios[2], -20_000);
}

#[test]
fn portfolio_construction_uses_hedge_ratios() {
    let a = aligned();
    let hedge_ratios = calculate_hedge_ratios_ols(&a).unwrap();
    let residuals = construct_portfolio(&a, &hedge_ratios).unwrap();
    assert_eq!(residuals.len(), 4);
    assert_eq!(residuals[0], -50);
}

#[test]
fn adf_flags_stationary_vs_non_stationary_series() {
    let (stationary_stat, _) = augmented_dickey_fuller_test(&vec![5, -4, 3, -2, 1, -1]).unwrap();
    let (trending_stat, _) = augmented_dickey_fuller_test(&vec![1, 2, 4, 8, 16, 32]).unwrap();
    assert!(stationary_stat < 0);
    assert!(trending_stat >= stationary_stat);
}

#[test]
fn three_asset_basket_cointegration_path_works() {
    let (book, _) = seeded(&[100, 101, 102, 103, 104, 180], &[80, 81, 82, 83, 84, 85], &[60, 61, 62, 63, 64, 65]);
    let result = book.test_cointegration_for_assets(vec![1, 2, 3], 6, 1).unwrap();
    assert_eq!(result.asset_group.len(), 3);
    assert!(result.is_cointegrated);
    assert!(result.half_life > 0);
}

#[test]
fn signal_generation_triggers_on_residual_divergence() {
    let (mut book, _) = seeded(&[100, 101, 102, 103, 104, 180], &[80, 81, 82, 83, 84, 85], &[60, 61, 62, 63, 64, 65]);
    book.configure_strategy(USER, vec![1, 2, 3], 6, 1, 500, 250, 1).unwrap();
    let signal = book.check_stat_arb_signal(USER).unwrap();
    assert_eq!(signal.action, StatArbSignalAction::EnterShort);
}

#[test]
fn non_cointegrated_basket_is_rejected() {
    let (mut book, _) = seeded(&[100, 110, 120, 130, 140, 150], &[90, 100, 130, 160, 190, 220], &[50, 55, 60, 80, 120, 170]);
    book.configure_strategy(USER, vec![1, 2, 3], 6, 5_000, 5_000, 1_000, 1).unwrap();
    let result = book.test_cointegration(USER).unwrap();
    assert!(!result.is_cointegrated);
}

#[test]
fn zero_variance_and_insufficient_data_are_rejected() {
    let flat = vec![100i128, 100, 100, 100];
    assert_eq!(calculate_regression_coefficient(&flat, &flat), Err(AutoTradeError::InvalidPriceData));
    assert_eq!(augmented_dickey_fuller_test(&vec![1, 2, 3]), Err(AutoTradeError::InsufficientPriceHistory));
}

#[test]
fn configure_rejects_small_basket() {
    let mut book = StatArbBook::new();
    assert_eq!(book.configure_strategy(USER, vec![1], 6, 1, 500, 250, 1), Err(AutoTradeError::InvalidBasketSize));
    assert!(book.get_strategy(USER).is_none());
}
