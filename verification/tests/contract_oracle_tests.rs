use auto_trade::admin::AdminState;
use auto_trade::correlation::{build_correlation_matrix, calculate_correlation, CorrBook, CorrelationLimits, RiskLevel};
use auto_trade::oracle::{get_mock_oracle_price, oracle_price_to_i128, OracleError, OraclePrice, OracleState};
use auto_trade::risk::{RiskBook, RiskConfig};
use auto_trade::AutoTradeError;

const NOW: u64 = 1_000;
const ADMIN: u64 = 1;
const ATTACKER: u64 = 2;
const ORACLE: u64 = 50;
const USER: u64 = 77;

fn make_price(price: i128) -> OraclePrice {
    OraclePrice { price, decimals: 0, timestamp: NOW }
}

fn admin() -> AdminState {
    let mut a = AdminState::new();
    a.init_admin(ADMIN, NOW);
    a
}

/// An oracle state whose breaker has tripped.
fn tripped() -> OracleState {
    let mut o = OracleState::new(NOW);
    o.cb.triggered = true;
    o.cb.triggered_at = NOW;
    o
}

fn seed_prices(risk: &mut RiskBook, asset: u32, prices: &[i128]) {
    for &p in prices {
        risk.record_price(asset, p);
    }
}

#[test]
fn test_set_and_get_oracle_address() {
    let a = admin();
    let mut o = OracleState::new(NOW);
    o.set_oracle_address(&a, ADMIN, ORACLE).unwrap();
    assert_eq!(o.get_oracle_address(), Some(ORACLE));
}

#[test]
fn test_non_admin_cannot_set_oracle() {
    let a = admin();
    let mut o = OracleState::new(NOW);
    assert_eq!(o.set_oracle_address(&a, ATTACKER, ORACLE), Err(AutoTradeError::Unauthorized));
    assert_eq!(o.get_oracle_address(), None);
}

#[test]
fn test_stop_loss_uses_oracle_price() {
    let mut risk = RiskBook::new();
    risk.update_position(USER, 1, 1_000, 100);
    let config = RiskConfig::default();
    assert!(risk.check_stop_loss(USER, 1, 90, Some(80), &config), "oracle price below stop-loss must trigger");
    assert!(!risk.check_stop_loss(USER, 1, 80, Some(90), &config), "oracle price above stop-loss must not trigger");
}

#[test]
fn test_stop_loss_fallback_to_sdex_when_no_oracle() {
    let mut risk = RiskBook::new();
    risk.update_position(USER, 1, 1_000, 100);
    let config = RiskConfig::default();
    assert!(risk.check_stop_loss(USER, 1, 80, None, &config));
    assert!(!risk.check_stop_loss(USER, 1, 90, None, &config));
}

#[test]
fn test_mock_oracle_returns_seeded_price() {
    let result = get_mock_oracle_price(Ok(make_price(42_000)), NOW).unwrap();
    assert_eq!(result.price, 42_000);
}

#[test]
fn test_mock_oracle_price_not_found() {
    let result = get_mock_oracle_price(Err(OracleError::PriceNotFound), NOW);
    assert_eq!(result, Err(OracleError::PriceNotFound));
}

#[test]
fn test_stale_oracle_price_rejected() {
    let stale = OraclePrice { price: 100, decimals: 0, timestamp: 1 };
    assert_eq!(get_mock_oracle_price(Ok(stale), NOW), Err(OracleError::PriceStale));
}

#[test]
fn test_oracle_price_scaling() {
    let op = OraclePrice { price: 1_000_000, decimals: 4, timestamp: 1_000 };
    assert_eq!(oracle_price_to_i128(&op), 100);
}

#[test]
fn test_oracle_available_trade_proceeds() {
    let _ = admin();
    let o = OracleState::new(NOW);
    assert!(get_mock_oracle_price(Ok(make_price(100)), NOW).is_ok());
    assert!(!o.get_cb_state().triggered);
}

#[test]
fn test_oracle_unavailable_trips_circuit_breaker() {
    let o = tripped();
    let state = o.get_cb_state();
    assert!(state.triggered);
    assert!(!state.admin_override);
}

#[test]
fn test_circuit_breaker_blocks_trade_when_oracle_down() {
    let mut o = tripped();
    let result = o.check_oracle_circuit_breaker(Err(OracleError::PriceNotFound), NOW);
    assert_eq!(result, Err(AutoTradeError::OracleUnavailable));
}

#[test]
fn test_circuit_breaker_auto_resets_on_recovery() {
    let a = admin();
    let mut o = tripped();
    o.set_oracle_address(&a, ADMIN, ORACLE).unwrap();
    let result = o.check_oracle_circuit_breaker(Ok(make_price(100)), NOW);
    assert!(result.is_ok(), "should recover when oracle is healthy");
    assert!(!o.get_cb_state().triggered, "breaker must be reset after recovery");
}

#[test]
fn test_admin_override_allows_trade_when_oracle_down() {
    let a = admin();
    let mut o = tripped();
    o.override_oracle_circuit_breaker(&a, ADMIN, true).unwrap();
    let result = o.check_oracle_circuit_breaker(Err(OracleError::PriceNotFound), NOW);
    assert!(result.is_ok(), "admin override must allow trading");
}

#[test]
fn test_admin_can_disable_override() {
    let a = admin();
    let mut o = tripped();
    o.override_oracle_circuit_breaker(&a, ADMIN, true).unwrap();
    o.override_oracle_circuit_breaker(&a, ADMIN, false).unwrap();
    let result = o.check_oracle_circuit_breaker(Err(OracleError::PriceNotFound), NOW);
    assert_eq!(result, Err(AutoTradeError::OracleUnavailable));
}

#[test]
fn test_non_admin_cannot_override_circuit_breaker() {
    let a = admin();
    let mut o = OracleState::new(NOW);
    assert_eq!(o.override_oracle_circuit_breaker(&a, ATTACKER, true), Err(AutoTradeError::Unauthorized));
}

#[test]
fn test_aggregated_price_trips_and_resets_breaker() {
    let a = admin();
    let mut o = OracleState::new(NOW);
    o.set_oracle_address(&a, ADMIN, ORACLE).unwrap();
    assert_eq!(o.get_aggregated_price(Err(OracleError::CallFailed), NOW + 5), Err(AutoTradeError::OracleUnavailable));
    assert!(o.get_cb_state().triggered);
    assert_eq!(o.get_cb_state().triggered_at, NOW + 5);
    let p = o.get_aggregated_price(Ok(make_price(7)), NOW).unwrap();
    assert_eq!(p.price, 7);
    assert!(!o.get_cb_state().triggered);
}

#[test]
fn test_xlm_usdc_xlm_btc_high_correlation() {
    let mut risk = RiskBook::new();
    let prices = [100i128, 103, 101, 106, 104, 109, 107, 112];
    seed_prices(&mut risk, 1, &prices);
    seed_prices(&mut risk, 2, &prices);
    let corr = calculate_correlation(&risk, 1, 2, 30);
    assert!(corr > 7_000, "XLM pairs should be highly correlated, got {corr}");
}

#[test]
fn test_build_matrix_10_assets() {
    let mut risk = RiskBook::new();
    let prices = [100i128, 102, 101, 105, 103, 107, 106, 110];
    for id in 1u32..=10 {
        seed_prices(&mut risk, id, &prices);
    }
    let assets: Vec<u32> = (1u32..=10).collect();
    let matrix = build_correlation_matrix(&risk, &assets, NOW);
    assert_eq!(matrix.correlations.len(), 90);
}

#[test]
fn test_high_correlation_portfolio_detected() {
    let mut risk = RiskBook::new();
    let prices = [100i128, 103, 101, 106, 104, 109, 107, 112];
    seed_prices(&mut risk, 1, &prices);
    seed_prices(&mut risk, 2, &prices);
    risk.set_asset_price(1, 100);
    risk.update_position(USER, 1, 10_000, 100);
    let mut book = CorrBook::new();
    let r = book.check_portfolio_correlation(&risk, USER, 2, 5_000, NOW).unwrap();
    assert_eq!(r.highly_correlated_assets, 1);
    assert_ne!(r.risk_level, RiskLevel::Low);
}

#[test]
fn test_trade_blocked_by_correlation_limit() {
    let mut risk = RiskBook::new();
    let prices = [100i128, 103, 101, 106, 104, 109, 107, 112];
    seed_prices(&mut risk, 1, &prices);
    seed_prices(&mut risk, 2, &prices);
    risk.set_asset_price(1, 100);
    risk.update_position(USER, 1, 10_000, 100);
    let mut book = CorrBook::new();
    book.set_correlation_limits(
        USER,
        &CorrelationLimits { max_correlated_exposure_pct: 70, max_single_correlation: 7_000, max_correlated_positions: 0 },
    );
    let result = book.enforce_correlation_limits(&risk, USER, 2, 5_000, NOW);
    assert_eq!(result, Err(AutoTradeError::TooManyCorrelatedPositions));
}

#[test]
fn test_uncorrelated_trade_passes_limits() {
    let mut risk = RiskBook::new();
    risk.set_asset_price(1, 100);
    risk.update_position(USER, 1, 1_000, 100);
    let mut book = CorrBook::new();
    assert!(book.enforce_correlation_limits(&risk, USER, 99, 500, NOW).is_ok());
}

#[test]
fn test_diversification_suggestions() {
    let mut risk = RiskBook::new();
    risk.set_asset_price(1, 100);
    risk.update_position(USER, 1, 1_000, 100);
    let mut book = CorrBook::new();
    let suggestions = book.suggest_diversification(&risk, USER, &vec![1u32, 2, 3], NOW);
    for s in &suggestions {
        assert_ne!(*s, 1u32);
    }
    assert!(suggestions.len() >= 2);
}

#[test]
fn test_default_risk_config() {
    let config = RiskConfig::default();
    assert_eq!(config.max_position_pct, 20);
    assert_eq!(config.daily_trade_limit, 10);
    assert_eq!(config.stop_loss_pct, 15);
    assert!(!config.trailing_stop_enabled);
    assert_eq!(config.trailing_stop_pct, 1000);
}
