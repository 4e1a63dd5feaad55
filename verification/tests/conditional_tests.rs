use auto_trade::conditional::{Condition, ConditionalBook, ConditionalSide, ConditionalStatus, LogicOp, PriceDirection};
use auto_trade::risk::RiskBook;
use auto_trade::AutoTradeError;

const USER: u64 = 7;

fn setup() -> (ConditionalBook, RiskBook) {
    (ConditionalBook::new(), RiskBook::new())
}

fn simple_price_condition(asset_id: u32, direction: PriceDirection, threshold: i128) -> Vec<Condition> {
    vec![Condition::Price(asset_id, direction, threshold)]
}

#[test]
fn test_create_and_get() {
    let (mut book, mut risk) = setup();
    risk.set_asset_price(1, 100_000);
    let conditions = simple_price_condition(1, PriceDirection::Above, 110_000);
    let id = book.create_conditional_order(&risk, USER, 1, ConditionalSide::Buy, 1_000, 0, conditions, LogicOp::And, 3_600, 1_000).unwrap();
    let order = book.get_conditional_order(id).unwrap();
    assert_eq!(order.status, ConditionalStatus::Pending);
    assert_eq!(order.reference_price, 100_000);
}

#[test]
fn test_cancel_order() {
    let (mut book, mut risk) = setup();
    risk.set_asset_price(1, 100_000);
    let conditions = simple_price_condition(1, PriceDirection::Above, 110_000);
    let id = book.create_conditional_order(&risk, USER, 1, ConditionalSide::Buy, 1_000, 0, conditions, LogicOp::And, 3_600, 1_000).unwrap();
    book.cancel_conditional_order(id, USER).unwrap();
    assert_eq!(book.get_conditional_order(id).unwrap().status, ConditionalStatus::Cancelled);
}

#[test]
fn test_cancel_wrong_user_fails() {
    let (mut book, mut risk) = setup();
    risk.set_asset_price(1, 100_000);
    let conditions = simple_price_condition(1, PriceDirection::Above, 110_000);
    let id = book.create_conditional_order(&risk, USER, 1, ConditionalSide::Buy, 1_000, 0, conditions, LogicOp::And, 3_600, 1_000).unwrap();
    assert_eq!(book.cancel_conditional_order(id, 8), Err(AutoTradeError::Unauthorized));
}

#[test]
fn test_price_above_triggers() {
    let (mut book, mut risk) = setup();
    risk.set_asset_price(1, 100_000);
    let conditions = simple_price_condition(1, PriceDirection::Above, 110_000);
    let id = book.create_conditional_order(&risk, USER, 1, ConditionalSide::Buy, 1_000, 0, conditions, LogicOp::And, 3_600, 1_000).unwrap();
    assert_eq!(book.check_and_trigger(&risk, 1_000).len(), 0);
    risk.set_asset_price(1, 115_000);
    let triggered = book.check_and_trigger(&risk, 1_000);
    assert_eq!(triggered.len(), 1);
    assert_eq!(triggered[0], id);
    assert_eq!(book.get_conditional_order(id).unwrap().status, ConditionalStatus::Triggered);
}

#[test]
fn test_price_below_triggers() {
    let (mut book, mut risk) = setup();
    risk.set_asset_price(1, 100_000);
    let conditions = simple_price_condition(1, PriceDirection::Below, 90_000);
    let id = book.create_conditional_order(&risk, USER, 1, ConditionalSide::Sell, 500, 0, conditions, LogicOp::And, 3_600, 1_000).unwrap();
    risk.set_asset_price(1, 85_000);
    let triggered = book.check_and_trigger(&risk, 1_000);
    assert_eq!(triggered.len(), 1);
    assert_eq!(triggered[0], id);
}

#[test]
fn test_time_after_triggers() {
    let (mut book, mut risk) = setup();
    risk.set_asset_price(1, 100_000);
    let conditions = vec![Condition::TimeAfter(2_000)];
    let id = book.create_conditional_order(&risk, USER, 1, ConditionalSide::Buy, 1_000, 0, conditions, LogicOp::And, 10_000, 1_000).unwrap();
    assert_eq!(book.check_and_trigger(&risk, 1_000).len(), 0);
    let triggered = book.check_and_trigger(&risk, 2_001);
    assert_eq!(triggered.len(), 1);
    assert_eq!(triggered[0], id);
}

#[test]
fn test_drop_rebound_triggers() {
    let (mut book, mut risk) = setup();
    risk.set_asset_price(1, 100_000);
    let conditions = vec![Condition::PriceDropRebound(1, 1_000, 300)];
    let id = book.create_conditional_order(&risk, USER, 1, ConditionalSide::Buy, 1_000, 0, conditions, LogicOp::And, 10_000, 1_000).unwrap();
    risk.set_asset_price(1, 89_000);
    assert_eq!(book.check_and_trigger(&risk, 1_000).len(), 0);
    risk.set_asset_price(1, 91_700);
    let triggered = book.check_and_trigger(&risk, 1_000);
    assert_eq!(triggered.len(), 1);
    assert_eq!(triggered[0], id);
}

#[test]
fn test_volatility_breakout_triggers() {
    let (mut book, mut risk) = setup();
    risk.set_asset_price(1, 100_000);
    let conditions = vec![Condition::VolatilityBreakout(1, 500)];
    let id = book.create_conditional_order(&risk, USER, 1, ConditionalSide::Buy, 1_000, 0, conditions, LogicOp::And, 10_000, 1_000).unwrap();
    risk.set_asset_price(1, 104_000);
    assert_eq!(book.check_and_trigger(&risk, 1_000).len(), 0);
    risk.set_asset_price(1, 106_000);
    let triggered = book.check_and_trigger(&risk, 1_000);
    assert_eq!(triggered.len(), 1);
    assert_eq!(triggered[0], id);
}

#[test]
fn test_and_logic_requires_all() {
    let (mut book, mut risk) = setup();
    risk.set_asset_price(1, 100_000);
    risk.set_asset_price(2, 50_000);
    let conditions = vec![
        Condition::Price(1, PriceDirection::Above, 110_000),
        Condition::Price(2, PriceDirection::Below, 40_000),
    ];
    let id = book.create_conditional_order(&risk, USER, 1, ConditionalSide::Buy, 1_000, 0, conditions, LogicOp::And, 10_000, 1_000).unwrap();
    risk.set_asset_price(1, 115_000);
    assert_eq!(book.check_and_trigger(&risk, 1_000).len(), 0);
    risk.set_asset_price(2, 35_000);
    let triggered = book.check_and_trigger(&risk, 1_000);
    assert_eq!(triggered.len(), 1);
    assert_eq!(triggered[0], id);
}

#[test]
fn test_or_logic_requires_one() {
    let (mut book, mut risk) = setup();
    risk.set_asset_price(1, 100_000);
    risk.set_asset_price(2, 50_000);
    let conditions = vec![
        Condition::Price(1, PriceDirection::Above, 110_000),
        Condition::Price(2, PriceDirection::Below, 40_000),
    ];
    let id = book.create_conditional_order(&risk, USER, 1, ConditionalSide::Buy, 1_000, 0, conditions, LogicOp::Or, 10_000, 1_000).unwrap();
    risk.set_asset_price(1, 115_000);
    let triggered = book.check_and_trigger(&risk, 1_000);
    assert_eq!(triggered.len(), 1);
    assert_eq!(triggered[0], id);
}

#[test]
fn test_order_expires() {
    let (mut book, mut risk) = setup();
    risk.set_asset_price(1, 100_000);
    let conditions = simple_price_condition(1, PriceDirection::Above, 200_000);
    let id = book.create_conditional_order(&risk, USER, 1, ConditionalSide::Buy, 1_000, 0, conditions, LogicOp::And, 500, 1_000).unwrap();
    let triggered = book.check_and_trigger(&risk, 1_600);
    assert_eq!(triggered.len(), 0);
    assert_eq!(book.get_conditional_order(id).unwrap().status, ConditionalStatus::Expired);
}

#[test]
fn test_mark_executed() {
    let (mut book, mut risk) = setup();
    risk.set_asset_price(1, 120_000);
    let conditions = simple_price_condition(1, PriceDirection::Above, 110_000);
    let id = book.create_conditional_order(&risk, USER, 1, ConditionalSide::Buy, 1_000, 0, conditions, LogicOp::And, 3_600, 1_000).unwrap();
    book.check_and_trigger(&risk, 1_000);
    assert_eq!(book.get_conditional_order(id).unwrap().status, ConditionalStatus::Triggered);
    book.mark_executed(id).unwrap();
    assert_eq!(book.get_conditional_order(id).unwrap().status, ConditionalStatus::Executed);
}

#[test]
fn test_mark_executed_wrong_state_fails() {
    let (mut book, mut risk) = setup();
    risk.set_asset_price(1, 100_000);
    let conditions = simple_price_condition(1, PriceDirection::Above, 110_000);
    let id = book.create_conditional_order(&risk, USER, 1, ConditionalSide::Buy, 1_000, 0, conditions, LogicOp::And, 3_600, 1_000).unwrap();
    assert_eq!(book.mark_executed(id), Err(AutoTradeError::ConditionalOrderNotTriggered));
}

#[test]
fn invalid_orders_are_refused() {
    let (mut book, risk) = setup();
    assert_eq!(book.create_conditional_order(&risk, USER, 1, ConditionalSide::Buy, 0, 0, vec![Condition::TimeAfter(1)], LogicOp::And, 1, 1),
        Err(AutoTradeError::InvalidAmount));
    assert_eq!(book.create_conditional_order(&risk, USER, 1, ConditionalSide::Buy, 10, 0, vec![], LogicOp::And, 1, 1),
        Err(AutoTradeError::InvalidConditionalConfig));
}

#[test]
fn triggered_orders_leave_the_active_list() {
    let (mut book, mut risk) = setup();
    risk.set_asset_price(1, 120_000);
    let id = book.create_conditional_order(&risk, USER, 1, ConditionalSide::Buy, 1_000, 0,
        simple_price_condition(1, PriceDirection::Above, 110_000), LogicOp::And, 3_600, 1_000).unwrap();
    assert_eq!(book.active, vec![id]);
    book.check_and_trigger(&risk, 1_000);
    assert!(book.active.is_empty());
    // Nothing fires a second time.
    assert!(book.check_and_trigger(&risk, 1_000).is_empty());
}
