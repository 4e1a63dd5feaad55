use auto_trade::portfolio_insurance::InsuranceBook;
use auto_trade::risk::RiskBook;
use auto_trade::AutoTradeError;

const USER: u64 = 9;

/// Insurance configured, a 10_000 portfolio at price 100 and its high-water mark set.
fn funded(enabled: bool, rebalance_bps: u32) -> (InsuranceBook, RiskBook) {
    let mut ins = InsuranceBook::new();
    let mut risk = RiskBook::new();
    ins.configure_insurance(USER, enabled, 1500, 5000, rebalance_bps).unwrap();
    risk.set_asset_price(1, 100);
    risk.update_position(USER, 1, 10_000, 100);
    ins.calculate_drawdown(&risk, USER).unwrap();
    (ins, risk)
}

#[test]
fn test_configure_insurance_success() {
    let mut ins = InsuranceBook::new();
    ins.configure_insurance(USER, true, 1500, 5000, 200).unwrap();
    let p = ins.get_insurance(USER).unwrap();
    assert!(p.enabled);
    assert_eq!(p.max_drawdown_bps, 1500);
    assert_eq!(p.hedge_ratio_bps, 5000);
}

#[test]
fn test_configure_insurance_invalid_drawdown() {
    let mut ins = InsuranceBook::new();
    let err = ins.configure_insurance(USER, true, 0, 5000, 200).unwrap_err();
    assert_eq!(err, AutoTradeError::InvalidInsuranceConfig);
}

#[test]
fn test_configure_insurance_invalid_ratio() {
    let mut ins = InsuranceBook::new();
    let err = ins.configure_insurance(USER, true, 1500, 0, 200).unwrap_err();
    assert_eq!(err, AutoTradeError::InvalidInsuranceConfig);
}

#[test]
fn test_drawdown_zero_when_no_portfolio() {
    let mut ins = InsuranceBook::new();
    let risk = RiskBook::new();
    ins.configure_insurance(USER, true, 1500, 5000, 200).unwrap();
    assert_eq!(ins.calculate_drawdown(&risk, USER).unwrap(), 0);
}

#[test]
fn test_drawdown_updates_high_water_mark() {
    let mut ins = InsuranceBook::new();
    let mut risk = RiskBook::new();
    ins.configure_insurance(USER, true, 1500, 5000, 200).unwrap();
    risk.set_asset_price(1, 100);
    risk.update_position(USER, 1, 10_000, 100);
    assert_eq!(ins.calculate_drawdown(&risk, USER).unwrap(), 0);
    assert_eq!(ins.get_insurance(USER).unwrap().portfolio_high_water_mark, 10_000);
}

#[test]
fn test_drawdown_20_percent() {
    let (mut ins, mut risk) = funded(true, 200);
    risk.set_asset_price(1, 80);
    assert_eq!(ins.calculate_drawdown(&risk, USER).unwrap(), 2_000);
}

#[test]
fn test_hedge_not_triggered_below_threshold() {
    let (mut ins, mut risk) = funded(true, 200);
    risk.set_asset_price(1, 90);
    let ids = ins.check_and_apply_hedge(&risk, USER).unwrap();
    assert_eq!(ids.len(), 0);
}

#[test]
fn test_hedge_triggered_at_threshold() {
    let (mut ins, mut risk) = funded(true, 200);
    risk.set_asset_price(1, 80);
    let ids = ins.check_and_apply_hedge(&risk, USER).unwrap();
    assert!(ids.len() > 0);
    assert!(!ins.get_insurance(USER).unwrap().active_hedges.is_empty());
}

#[test]
fn test_hedge_size_approximately_50_percent() {
    let (mut ins, mut risk) = funded(true, 200);
    risk.set_asset_price(1, 80);
    ins.check_and_apply_hedge(&risk, USER).unwrap();
    let p = ins.get_insurance(USER).unwrap();
    assert_eq!(p.active_hedges.len(), 1);
    // target hedge value 8_000 * 5000 / 10_000 = 4_000; amount 4_000 * 100 / 80 = 5_000
    assert_eq!(p.active_hedges[0].amount, 5_000);
}

#[test]
fn test_no_double_hedge() {
    let (mut ins, mut risk) = funded(true, 200);
    risk.set_asset_price(1, 80);
    ins.check_and_apply_hedge(&risk, USER).unwrap();
    let ids2 = ins.check_and_apply_hedge(&risk, USER).unwrap();
    assert_eq!(ids2.len(), 0);
}

#[test]
fn test_disabled_insurance_skips_hedge() {
    let (mut ins, mut risk) = funded(false, 200);
    risk.set_asset_price(1, 80);
    let ids = ins.check_and_apply_hedge(&risk, USER).unwrap();
    assert_eq!(ids.len(), 0);
}

#[test]
fn test_rebalance_no_op_below_threshold() {
    let (mut ins, mut risk) = funded(true, 1000);
    risk.set_asset_price(1, 80);
    ins.check_and_apply_hedge(&risk, USER).unwrap();
    risk.set_asset_price(1, 81);
    let ids = ins.rebalance_hedges(&risk, USER).unwrap();
    assert_eq!(ids.len(), 0);
}

#[test]
fn test_rebalance_triggers_on_large_delta() {
    let (mut ins, mut risk) = funded(true, 200);
    risk.set_asset_price(1, 80);
    ins.check_and_apply_hedge(&risk, USER).unwrap();
    risk.update_position(USER, 1, 20_000, 80);
    let ids = ins.rebalance_hedges(&risk, USER).unwrap();
    assert!(ids.len() > 0);
}

#[test]
fn test_hedges_removed_on_recovery() {
    let (mut ins, mut risk) = funded(true, 200);
    risk.set_asset_price(1, 80);
    ins.check_and_apply_hedge(&risk, USER).unwrap();
    assert!(!ins.get_insurance(USER).unwrap().active_hedges.is_empty());
    risk.set_asset_price(1, 99);
    let ids = ins.remove_hedges_if_recovered(&risk, USER).unwrap();
    assert!(ids.len() > 0);
    assert!(ins.get_insurance(USER).unwrap().active_hedges.is_empty());
}

#[test]
fn test_hedges_not_removed_while_still_down() {
    let (mut ins, mut risk) = funded(true, 200);
    risk.set_asset_price(1, 80);
    ins.check_and_apply_hedge(&risk, USER).unwrap();
    let ids = ins.remove_hedges_if_recovered(&risk, USER).unwrap();
    assert_eq!(ids.len(), 0);
}

#[test]
fn test_drawdown_not_configured_returns_error() {
    let mut ins = InsuranceBook::new();
    let risk = RiskBook::new();
    assert_eq!(ins.calculate_drawdown(&risk, USER).unwrap_err(), AutoTradeError::InsuranceNotConfigured);
}

#[test]
fn test_apply_hedge_not_configured_returns_error() {
    let mut ins = InsuranceBook::new();
    let risk = RiskBook::new();
    assert_eq!(ins.check_and_apply_hedge(&risk, USER).unwrap_err(), AutoTradeError::InsuranceNotConfigured);
}

#[test]
fn test_configure_rejects_ratio_above_full() {
    let mut ins = InsuranceBook::new();
    assert_eq!(ins.configure_insurance(USER, true, 1500, 10_001, 200).unwrap_err(), AutoTradeError::InvalidInsuranceConfig);
    assert!(ins.get_insurance(USER).is_none());
}
