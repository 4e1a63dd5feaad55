use auto_trade::correlation::{
    build_correlation_matrix, calculate_correlation, pair_key, CorrBook, CorrelationLimits, RiskLevel, CORR_SCALE,
};
use auto_trade::risk::RiskBook;
use auto_trade::AutoTradeError;

const NOW: u64 = 1_000;
const USER: u64 = 5;

fn seed_prices(risk: &mut RiskBook, asset: u32, prices: &[i128]) {
    for &p in prices {
        risk.record_price(asset, p);
    }
}

#[test]
fn test_high_positive_correlation() {
    let mut risk = RiskBook::new();
    let prices = [100i128, 102, 105, 103, 108, 110, 107, 112];
    seed_prices(&mut risk, 1, &prices);
    seed_prices(&mut risk, 2, &prices);
    let corr = calculate_correlation(&risk, 1, 2, 30);
    assert_eq!(corr, CORR_SCALE, "identical series must give +10000 bps");
}

#[test]
fn test_negative_correlation() {
    let mut risk = RiskBook::new();
    seed_prices(&mut risk, 1, &[100i128, 102, 104, 106, 108]);
    seed_prices(&mut risk, 2, &[108i128, 106, 104, 102, 100]);
    let corr = calculate_correlation(&risk, 1, 2, 30);
    assert!(corr < 0, "inverse series must give negative correlation");
}

#[test]
fn test_insufficient_history_returns_zero() {
    let mut risk = RiskBook::new();
    seed_prices(&mut risk, 1, &[100i128, 101]);
    seed_prices(&mut risk, 2, &[100i128, 101]);
    assert_eq!(calculate_correlation(&risk, 1, 2, 30), 0);
}

#[test]
fn test_matrix_symmetry() {
    let mut risk = RiskBook::new();
    let prices = [100i128, 102, 101, 105, 103, 107, 106, 110];
    seed_prices(&mut risk, 1, &prices);
    seed_prices(&mut risk, 2, &prices);
    seed_prices(&mut risk, 3, &[50i128, 51, 49, 52, 50, 53, 51, 54]);
    let assets = vec![1u32, 2, 3];
    let matrix = build_correlation_matrix(&risk, &assets, NOW);
    let c12 = matrix.correlations.get(pair_key(1, 2) as u128).copied().unwrap_or(0);
    let c21 = matrix.correlations.get(pair_key(2, 1) as u128).copied().unwrap_or(0);
    assert_eq!(c12, c21);
}

#[test]
fn test_low_risk_when_no_holdings() {
    let risk = RiskBook::new();
    let mut book = CorrBook::new();
    let r = book.check_portfolio_correlation(&risk, USER, 1, 1_000, NOW).unwrap();
    assert_eq!(r.risk_level, RiskLevel::Low);
    assert_eq!(r.highly_correlated_assets, 0);
}

#[test]
fn test_high_risk_with_correlated_holdings() {
    let mut risk = RiskBook::new();
    let prices = [100i128, 102, 105, 103, 108, 110, 107, 112];
    seed_prices(&mut risk, 1, &prices);
    seed_prices(&mut risk, 2, &prices);
    risk.set_asset_price(1, 100);
    risk.update_position(USER, 1, 10_000, 100);
    let mut book = CorrBook::new();
    let r = book.check_portfolio_correlation(&risk, USER, 2, 5_000, NOW).unwrap();
    assert_eq!(r.highly_correlated_assets, 1);
    assert!(r.correlated_exposure_pct > 0);
}

#[test]
fn test_enforce_blocks_over_limit() {
    let mut risk = RiskBook::new();
    let prices = [100i128, 102, 105, 103, 108, 110, 107, 112];
    seed_prices(&mut risk, 1, &prices);
    seed_prices(&mut risk, 2, &prices);
    risk.set_asset_price(1, 100);
    risk.update_position(USER, 1, 10_000, 100);
    let mut book = CorrBook::new();
    book.set_correlation_limits(
        USER,
        &CorrelationLimits { max_correlated_exposure_pct: 70, max_single_correlation: 7000, max_correlated_positions: 0 },
    );
    let result = book.enforce_correlation_limits(&risk, USER, 2, 5_000, NOW);
    assert_eq!(result, Err(AutoTradeError::TooManyCorrelatedPositions));
}

#[test]
fn test_enforce_allows_uncorrelated_trade() {
    let mut risk = RiskBook::new();
    risk.set_asset_price(1, 100);
    risk.update_position(USER, 1, 1_000, 100);
    let mut book = CorrBook::new();
    assert!(book.enforce_correlation_limits(&risk, USER, 3, 500, NOW).is_ok());
}

#[test]
fn test_suggest_returns_low_corr_assets() {
    let mut risk = RiskBook::new();
    risk.set_asset_price(1, 100);
    risk.update_position(USER, 1, 1_000, 100);
    let mut book = CorrBook::new();
    let suggestions = book.suggest_diversification(&risk, USER, &vec![2u32, 3], NOW);
    assert!(suggestions.len() > 0);
}

#[test]
fn test_suggest_excludes_already_held() {
    let mut risk = RiskBook::new();
    risk.set_asset_price(1, 100);
    risk.update_position(USER, 1, 1_000, 100);
    let mut book = CorrBook::new();
    let suggestions = book.suggest_diversification(&risk, USER, &vec![1u32], NOW);
    assert_eq!(suggestions.len(), 0);
}

#[test]
fn test_default_limits() {
    let risk = RiskBook::new();
    let book = CorrBook::new();
    let _ = risk;
    let lim = book.get_correlation_limits(USER);
    assert_eq!(lim, CorrelationLimits { max_correlated_exposure_pct: 70, max_single_correlation: 7000, max_correlated_positions: 3 });
}

#[test]
fn correlation_of_inverse_series_is_minus_one_and_within_range() {
    let mut risk = RiskBook::new();
    seed_prices(&mut risk, 1, &[100i128, 102, 104, 106, 108]);
    seed_prices(&mut risk, 2, &[108i128, 106, 104, 102, 100]);
    let corr = calculate_correlation(&risk, 1, 2, 30);
    assert_eq!(corr, -CORR_SCALE);
    seed_prices(&mut risk, 3, &[50i128, 51, 49, 52, 50, 53, 51, 54]);
    let c13 = calculate_correlation(&risk, 1, 3, 30);
    assert!(-CORR_SCALE <= c13 && c13 <= CORR_SCALE);
}

#[test]
fn correlation_is_taken_on_price_levels() {
    let mut risk = RiskBook::new();
    seed_prices(&mut risk, 1, &[100i128, 200, 300]);
    seed_prices(&mut risk, 2, &[100i128, 200, 400]);
    assert_eq!(calculate_correlation(&risk, 1, 2, 30), 9819);
}
