use auto_trade::admin::cat_trading_name;
use auto_trade::contract::{AutoTradeContract, OrderType, TradeStatus};
use auto_trade::oracle::OracleError;
use auto_trade::smart_routing::{ExecutionResult, LiquidityVenue, VenueLiquidity};
use auto_trade::storage::Signal;
use auto_trade::AutoTradeError;

const NOW: u64 = 1000;
const USER: u64 = 21;
const ADMIN: u64 = 1;

fn signal(signal_id: u64, expiry: u64) -> Signal {
    Signal { signal_id, price: 100, expiry, base_asset: 1 }
}

/// A contract with the signal stored, the user authorized and exempt from
/// the transfer limits.
fn ready(signal_id: u64) -> AutoTradeContract {
    let mut c = AutoTradeContract::new(NOW);
    c.signals.set_signal(signal_id, &signal(signal_id, NOW + 1000));
    c.auth.grant_authorization(USER, 1_000_000, 30, NOW).unwrap();
    c.rate.whitelist.push(USER);
    c
}

fn fill(amount: i128, price: i128) -> Result<ExecutionResult, AutoTradeError> {
    Ok(ExecutionResult { executed_amount: amount, executed_price: price })
}

fn trade(c: &mut AutoTradeContract, signal_id: u64, order_type: OrderType, amount: i128, has_balance: bool,
    market: Result<ExecutionResult, AutoTradeError>, limit: Result<ExecutionResult, AutoTradeError>)
    -> Result<auto_trade::contract::TradeResult, AutoTradeError> {
    c.execute_trade(USER, signal_id, order_type, amount, NOW, Err(OracleError::NotConfigured), has_balance, Ok(false), market, limit, None)
}

#[test]
fn test_execute_trade_invalid_amount() {
    let mut c = AutoTradeContract::new(NOW);
    let res = trade(&mut c, 1, OrderType::Market, 0, true, fill(0, 0), fill(0, 0));
    assert_eq!(res, Err(AutoTradeError::InvalidAmount));
}

#[test]
fn test_execute_trade_signal_not_found() {
    let mut c = AutoTradeContract::new(NOW);
    let res = trade(&mut c, 999, OrderType::Market, 100, true, fill(0, 0), fill(0, 0));
    assert_eq!(res, Err(AutoTradeError::SignalNotFound));
}

#[test]
fn test_execute_trade_signal_expired() {
    let mut c = AutoTradeContract::new(NOW);
    c.signals.set_signal(1, &signal(1, NOW - 1));
    let res = trade(&mut c, 1, OrderType::Market, 100, true, fill(0, 0), fill(0, 0));
    assert_eq!(res, Err(AutoTradeError::SignalExpired));
}

#[test]
fn test_execute_trade_unauthorized() {
    let mut c = AutoTradeContract::new(NOW);
    c.signals.set_signal(1, &signal(1, NOW + 1000));
    let res = trade(&mut c, 1, OrderType::Market, 100, true, fill(0, 0), fill(0, 0));
    assert_eq!(res, Err(AutoTradeError::Unauthorized));
}

#[test]
fn test_execute_trade_insufficient_balance() {
    let mut c = ready(1);
    let res = trade(&mut c, 1, OrderType::Market, 100, false, fill(0, 0), fill(0, 0));
    assert_eq!(res, Err(AutoTradeError::InsufficientBalance));
}

#[test]
fn test_execute_trade_market_full_fill() {
    let mut c = ready(1);
    let res = trade(&mut c, 1, OrderType::Market, 400, true, fill(400, 100), fill(0, 0)).unwrap();
    assert_eq!(res.trade.executed_amount, 400);
    assert_eq!(res.trade.executed_price, 100);
    assert_eq!(res.trade.status, TradeStatus::Filled);
    let p = c.risk.get_position(USER, 1).unwrap();
    assert_eq!(p.amount, 400);
    assert_eq!(p.entry_price, 100);
    assert_eq!(c.risk.get_asset_price(1), Some(100));
}

#[test]
fn test_execute_trade_market_partial_fill() {
    let mut c = ready(2);
    let res = trade(&mut c, 2, OrderType::Market, 300, true, fill(100, 100), fill(0, 0)).unwrap();
    assert_eq!(res.trade.executed_amount, 100);
    assert_eq!(res.trade.status, TradeStatus::PartiallyFilled);
}

#[test]
fn test_execute_trade_limit_filled() {
    let mut c = ready(3);
    let res = trade(&mut c, 3, OrderType::Limit, 200, true, fill(0, 0), fill(200, 100)).unwrap();
    assert_eq!(res.trade.executed_amount, 200);
    assert_eq!(res.trade.status, TradeStatus::Filled);
}

#[test]
fn test_execute_trade_limit_not_filled() {
    let mut c = ready(4);
    let res = trade(&mut c, 4, OrderType::Limit, 200, true, fill(0, 0), fill(0, 0)).unwrap();
    assert_eq!(res.trade.executed_amount, 0);
    assert_eq!(res.trade.executed_price, 0);
    assert_eq!(res.trade.status, TradeStatus::Failed);
    assert!(c.risk.get_position(USER, 1).is_none());
}

#[test]
fn test_get_trade_existing() {
    let mut c = ready(1);
    trade(&mut c, 1, OrderType::Market, 400, true, fill(400, 100), fill(0, 0)).unwrap();
    assert_eq!(c.get_trade(USER, 1).unwrap().executed_amount, 400);
}

#[test]
fn test_get_trade_non_existing() {
    let c = AutoTradeContract::new(NOW);
    assert!(c.get_trade(USER, 999).is_none());
}

#[test]
fn test_trading_pause_blocks_trades() {
    let mut c = ready(1);
    c.admin.init_admin(ADMIN, NOW);
    c.admin.pause_category(ADMIN, cat_trading_name(), None, "maintenance".to_string(), NOW).unwrap();
    let res = trade(&mut c, 1, OrderType::Market, 400, true, fill(400, 100), fill(0, 0));
    assert_eq!(res, Err(AutoTradeError::TradingPaused));
}

#[test]
fn test_tripped_oracle_breaker_blocks_trades() {
    let mut c = ready(1);
    c.oracle.cb.triggered = true;
    let res = trade(&mut c, 1, OrderType::Market, 400, true, fill(400, 100), fill(0, 0));
    assert_eq!(res, Err(AutoTradeError::OracleUnavailable));
}

#[test]
fn test_rate_limits_apply_to_others() {
    let mut c = ready(1);
    c.rate.whitelist.clear();
    let res = trade(&mut c, 1, OrderType::Market, 400, true, fill(400, 100), fill(0, 0));
    assert_eq!(res, Err(AutoTradeError::BelowMinTransfer));
}

#[test]
fn test_market_order_routed_over_venues() {
    let mut c = ready(5);
    c.routing
        .upsert_venue_liquidity(5, VenueLiquidity {
            venue: LiquidityVenue::Pool,
            venue_id: 1,
            available_amount: 1_000,
            price: 100,
            fee_bps: 0,
            slippage_bps: 10,
        })
        .unwrap();
    let res = trade(&mut c, 5, OrderType::Market, 400, true, fill(1, 1), fill(0, 0)).unwrap();
    assert_eq!(res.trade.executed_amount, 400);
    assert_eq!(c.routing.get_venue_liquidity(5)[0].available_amount, 600);
}

#[test]
fn refused_trade_leaves_no_trace() {
    let mut c = ready(1);
    c.admin.init_admin(ADMIN, NOW);
    c.admin.pause_category(ADMIN, cat_trading_name(), None, "maintenance".to_string(), NOW).unwrap();
    let attempts_before = c.admin.cb_stats.attempts_window;
    let res = trade(&mut c, 1, OrderType::Market, 400, true, fill(400, 100), fill(0, 0));
    assert_eq!(res, Err(AutoTradeError::TradingPaused));
    assert!(c.get_trade(USER, 1).is_none());
    assert!(c.risk.get_position(USER, 1).is_none());
    assert_eq!(c.risk.get_asset_price(1), None);
    assert_eq!(c.admin.cb_stats.attempts_window, attempts_before);
}

#[test]
fn zero_amount_stores_no_trade() {
    let mut c = ready(1);
    let res = trade(&mut c, 1, OrderType::Market, 0, true, fill(0, 0), fill(0, 0));
    assert_eq!(res, Err(AutoTradeError::InvalidAmount));
    assert!(c.get_trade(USER, 1).is_none());
    assert_eq!(c.admin.cb_stats.attempts_window, 0);
}

#[test]
fn failed_risk_check_only_records_the_price() {
    let mut c = ready(1);
    let res = c.execute_trade(USER, 1, OrderType::Market, 400, NOW, Err(OracleError::NotConfigured), true,
        Err(AutoTradeError::PositionLimitExceeded), fill(400, 100), fill(0, 0), None);
    assert_eq!(res, Err(AutoTradeError::PositionLimitExceeded));
    assert_eq!(c.risk.get_asset_price(1), Some(100));
    assert!(c.get_trade(USER, 1).is_none());
    assert!(c.risk.get_position(USER, 1).is_none());
    assert_eq!(c.admin.cb_stats.attempts_window, 0);
}

#[test]
fn fills_add_to_the_position_and_count_in_the_breaker() {
    let mut c = ready(1);
    trade(&mut c, 1, OrderType::Market, 400, true, fill(400, 100), fill(0, 0)).unwrap();
    c.signals.set_signal(2, &signal(2, NOW + 1000));
    trade(&mut c, 2, OrderType::Market, 300, true, fill(250, 120), fill(0, 0)).unwrap();
    let p = c.risk.get_position(USER, 1).unwrap();
    assert_eq!(p.amount, 650);
    assert_eq!(p.entry_price, 120);
    assert_eq!(p.high_price, 100);
    assert_eq!(c.admin.cb_stats.attempts_window, 2);
    assert_eq!(c.admin.cb_stats.volume_1h, 650);
    assert_eq!(c.admin.cb_stats.last_price, 120);
}
