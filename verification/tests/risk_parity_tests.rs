use auto_trade::risk::RiskBook;
use auto_trade::risk_parity::{
    calculate_risk_parity_rebalance, execute_risk_parity_rebalance, PortfolioAsset, RiskParityConfig,
};
use auto_trade::AutoTradeError;

const USER: u64 = 6;

fn assets() -> Vec<PortfolioAsset> {
    vec![
        PortfolioAsset { asset_id: 1, current_value_xlm: 1_000 },
        PortfolioAsset { asset_id: 2, current_value_xlm: 1_000 },
    ]
}

#[test]
fn inverse_volatility_targets() {
    let (risks, trades) = calculate_risk_parity_rebalance(&assets(), 2_000, &vec![100, 400], 1, 100).unwrap();
    assert_eq!(risks[0].current_risk_contribution, 100_000);
    assert_eq!(risks[1].current_risk_contribution, 400_000);
    assert_eq!(trades.len(), 2);
    // targets 1_600 and 400
    assert!(trades[0].is_buy);
    assert_eq!(trades[0].trade_amount_xlm, 600);
    assert!(!trades[1].is_buy);
    assert_eq!(trades[1].trade_amount_xlm, 600);
}

#[test]
fn balanced_portfolio_needs_no_trades() {
    let (_, trades) = calculate_risk_parity_rebalance(&assets(), 2_000, &vec![200, 200], 1, 100).unwrap();
    assert!(trades.is_empty());
}

#[test]
fn empty_portfolio_is_rejected() {
    assert_eq!(calculate_risk_parity_rebalance(&vec![], 0, &vec![], 1, 100).err(), Some(AutoTradeError::InvalidAmount));
}

#[test]
fn execution_moves_positions_and_stamps_time() {
    let mut risk = RiskBook::new();
    risk.set_asset_price(1, 10);
    risk.set_asset_price(2, 10);
    risk.update_position(USER, 1, 100, 10);
    risk.update_position(USER, 2, 100, 10);
    let mut config = RiskParityConfig { enabled: true, threshold_pct: 1, rebalance_frequency_days: 0, last_rebalance: 0 };
    execute_risk_parity_rebalance(&mut risk, &mut config, USER, &assets(), 2_000, &vec![100, 400], 100, 5_000).unwrap();
    assert_eq!(config.last_rebalance, 5_000);
    assert!(risk.get_position(USER, 1).unwrap().amount > 100);
    assert!(risk.get_position(USER, 2).unwrap().amount < 100);
}

#[test]
fn disabled_parity_is_refused() {
    let mut risk = RiskBook::new();
    let mut config = RiskParityConfig { enabled: false, threshold_pct: 1, rebalance_frequency_days: 0, last_rebalance: 0 };
    let r = execute_risk_parity_rebalance(&mut risk, &mut config, USER, &assets(), 2_000, &vec![100, 400], 100, 5_000);
    assert_eq!(r, Err(AutoTradeError::Unauthorized));
}

#[test]
fn rebalance_waits_for_its_frequency() {
    let mut risk = RiskBook::new();
    risk.update_position(USER, 1, 100, 10);
    let mut config = RiskParityConfig { enabled: true, threshold_pct: 1, rebalance_frequency_days: 7, last_rebalance: 1_000 };
    execute_risk_parity_rebalance(&mut risk, &mut config, USER, &assets(), 2_000, &vec![100, 400], 100, 2_000).unwrap();
    assert_eq!(config.last_rebalance, 1_000);
    assert_eq!(risk.get_position(USER, 1).unwrap().amount, 100);
}
