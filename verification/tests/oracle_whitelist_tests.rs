use auto_trade::admin::AdminState;
use auto_trade::oracle::{OraclePrice, OracleState};
use auto_trade::risk::RiskBook;
use auto_trade::AutoTradeError;

const NOW: u64 = 1_000;
const ADMIN: u64 = 1;
const ORACLE_A: u64 = 100;
const ORACLE_B: u64 = 101;
const STRANGER: u64 = 666;

fn setup() -> (AdminState, OracleState, RiskBook) {
    let mut admin = AdminState::new();
    admin.init_admin(ADMIN, NOW);
    (admin, OracleState::new(NOW), RiskBook::new())
}

fn fresh_price(price: i128) -> OraclePrice {
    OraclePrice { price, decimals: 0, timestamp: NOW }
}

#[test]
fn test_add_oracle_appears_in_whitelist() {
    let (admin, mut oracle, _) = setup();
    oracle.add_oracle(&admin, ADMIN, 1, ORACLE_A).unwrap();
    let list = oracle.get_oracle_whitelist(1);
    assert_eq!(list.len(), 1);
    assert_eq!(list[0], ORACLE_A);
}

#[test]
fn test_add_oracle_idempotent() {
    let (admin, mut oracle, _) = setup();
    oracle.add_oracle(&admin, ADMIN, 1, ORACLE_A).unwrap();
    oracle.add_oracle(&admin, ADMIN, 1, ORACLE_A).unwrap();
    assert_eq!(oracle.get_oracle_whitelist(1).len(), 1, "duplicate add must not grow the list");
}

#[test]
fn test_non_admin_cannot_add_oracle() {
    let (admin, mut oracle, _) = setup();
    let result = oracle.add_oracle(&admin, STRANGER, 1, ORACLE_A);
    assert_eq!(result, Err(AutoTradeError::Unauthorized));
}

#[test]
fn test_add_multiple_oracles_for_same_pair() {
    let (admin, mut oracle, _) = setup();
    oracle.add_oracle(&admin, ADMIN, 1, ORACLE_A).unwrap();
    oracle.add_oracle(&admin, ADMIN, 1, ORACLE_B).unwrap();
    assert_eq!(oracle.get_oracle_whitelist(1).len(), 2);
}

#[test]
fn test_whitelist_is_per_asset_pair() {
    let (admin, mut oracle, mut risk) = setup();
    oracle.add_oracle(&admin, ADMIN, 1, ORACLE_A).unwrap();
    assert_eq!(oracle.get_oracle_whitelist(2).len(), 0);
    let result = oracle.push_price_update(&mut risk, ORACLE_A, 2, fresh_price(200), NOW);
    assert_eq!(result, Err(AutoTradeError::Unauthorized));
}

#[test]
fn test_remove_oracle_succeeds_with_multiple() {
    let (admin, mut oracle, _) = setup();
    oracle.add_oracle(&admin, ADMIN, 1, ORACLE_A).unwrap();
    oracle.add_oracle(&admin, ADMIN, 1, ORACLE_B).unwrap();
    oracle.remove_oracle(&admin, ADMIN, 1, ORACLE_A).unwrap();
    let list = oracle.get_oracle_whitelist(1);
    assert_eq!(list.len(), 1);
    assert_eq!(list[0], ORACLE_B);
}

#[test]
fn test_cannot_remove_last_oracle() {
    let (admin, mut oracle, _) = setup();
    oracle.add_oracle(&admin, ADMIN, 1, ORACLE_A).unwrap();
    let result = oracle.remove_oracle(&admin, ADMIN, 1, ORACLE_A);
    assert_eq!(result, Err(AutoTradeError::LastOracleForPair));
}

#[test]
fn test_non_admin_cannot_remove_oracle() {
    let (admin, mut oracle, _) = setup();
    oracle.add_oracle(&admin, ADMIN, 1, ORACLE_A).unwrap();
    oracle.add_oracle(&admin, ADMIN, 1, ORACLE_B).unwrap();
    let result = oracle.remove_oracle(&admin, STRANGER, 1, ORACLE_A);
    assert_eq!(result, Err(AutoTradeError::Unauthorized));
}

#[test]
fn test_remove_nonexistent_oracle_is_noop() {
    let (admin, mut oracle, _) = setup();
    oracle.add_oracle(&admin, ADMIN, 1, ORACLE_A).unwrap();
    oracle.add_oracle(&admin, ADMIN, 1, ORACLE_B).unwrap();
    oracle.remove_oracle(&admin, ADMIN, 1, STRANGER).unwrap();
    assert_eq!(oracle.get_oracle_whitelist(1).len(), 2, "list must be unchanged");
}

#[test]
fn test_whitelisted_oracle_can_push_price() {
    let (admin, mut oracle, mut risk) = setup();
    oracle.add_oracle(&admin, ADMIN, 1, ORACLE_A).unwrap();
    oracle.push_price_update(&mut risk, ORACLE_A, 1, fresh_price(500), NOW).unwrap();
    assert_eq!(risk.get_asset_price(1), Some(500));
}

#[test]
fn test_non_whitelisted_oracle_cannot_push_price() {
    let (admin, mut oracle, mut risk) = setup();
    oracle.add_oracle(&admin, ADMIN, 1, ORACLE_A).unwrap();
    let result = oracle.push_price_update(&mut risk, STRANGER, 1, fresh_price(500), NOW);
    assert_eq!(result, Err(AutoTradeError::Unauthorized));
}

#[test]
fn test_whitelisted_oracle_stale_price_rejected() {
    let (admin, mut oracle, mut risk) = setup();
    oracle.add_oracle(&admin, ADMIN, 1, ORACLE_A).unwrap();
    let stale = OraclePrice { price: 100, decimals: 0, timestamp: 1 };
    let result = oracle.push_price_update(&mut risk, ORACLE_A, 1, stale, NOW);
    assert_eq!(result, Err(AutoTradeError::OracleUnavailable));
}

#[test]
fn test_removed_oracle_cannot_push_price() {
    let (admin, mut oracle, mut risk) = setup();
    oracle.add_oracle(&admin, ADMIN, 1, ORACLE_A).unwrap();
    oracle.add_oracle(&admin, ADMIN, 1, ORACLE_B).unwrap();
    oracle.remove_oracle(&admin, ADMIN, 1, ORACLE_A).unwrap();
    let result = oracle.push_price_update(&mut risk, ORACLE_A, 1, fresh_price(300), NOW);
    assert_eq!(result, Err(AutoTradeError::Unauthorized));
}

#[test]
fn test_push_price_decimal_scaling() {
    let (admin, mut oracle, mut risk) = setup();
    oracle.add_oracle(&admin, ADMIN, 1, ORACLE_A).unwrap();
    let price = OraclePrice { price: 10_000, decimals: 2, timestamp: NOW };
    oracle.push_price_update(&mut risk, ORACLE_A, 1, price, NOW).unwrap();
    assert_eq!(risk.get_asset_price(1), Some(100));
}

#[test]
fn test_pushed_price_recorded_in_history() {
    let (admin, mut oracle, mut risk) = setup();
    oracle.add_oracle(&admin, ADMIN, 1, ORACLE_A).unwrap();
    oracle.push_price_update(&mut risk, ORACLE_A, 1, fresh_price(700), NOW).unwrap();
    assert_eq!(risk.price_history_count(1), 1);
    assert_eq!(risk.price_history_slot(1, 0), Some(700));
}
