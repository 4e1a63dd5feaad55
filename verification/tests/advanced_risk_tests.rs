use auto_trade::advanced_risk::{
    calculate_trailing_stop, get_fixed_stop_price, get_trailing_stop_price, process_price_update,
    resolve_stop_trigger, update_position_high, StopTrigger,
};
use auto_trade::risk::{Position, RiskBook, RiskConfig};

fn config() -> RiskConfig {
    RiskConfig {
        max_position_pct: 20,
        daily_trade_limit: 10,
        stop_loss_pct: 15,
        trailing_stop_enabled: true,
        trailing_stop_pct: 1000,
    }
}

#[test]
fn test_calculate_trailing_stop() {
    assert_eq!(calculate_trailing_stop(200, 1000), 180);
    assert_eq!(calculate_trailing_stop(150, 500), 142);
}

#[test]
fn trailing_stop_is_zero_without_positive_high() {
    assert_eq!(calculate_trailing_stop(0, 1000), 0);
    assert_eq!(calculate_trailing_stop(-5, 1000), 0);
}

#[test]
fn test_process_price_update_triggers_trailing_stop() {
    let mut book = RiskBook::new();
    let user = 1;
    book.set_risk_config(user, config());
    book.update_position(user, 1, 1_000, 100);
    update_position_high(&mut book, user, 1, 200);
    let result = process_price_update(&mut book, user, 1, 180, None).unwrap();
    assert_eq!(result.trigger, StopTrigger::TrailingStop);
    assert_eq!(result.sold_amount, 1_000);
    assert_eq!(result.remaining_amount, 0);
}

#[test]
fn partial_liquidity_keeps_remainder() {
    let mut book = RiskBook::new();
    book.set_risk_config(3, config());
    book.update_position(3, 1, 1_000, 100);
    let result = process_price_update(&mut book, 3, 1, 80, Some(400)).unwrap();
    assert_eq!(result.trigger, StopTrigger::TrailingStop);
    assert_eq!(result.trigger_price, 90);
    assert_eq!(result.sold_amount, 400);
    assert_eq!(result.remaining_amount, 600);
    assert_eq!(book.get_position(3, 1).unwrap().amount, 600);
    assert_eq!(book.get_asset_price(1), Some(80));
}

#[test]
fn fixed_stop_fires_when_trailing_disabled() {
    let position = Position { amount: 10, entry_price: 100, high_price: 150 };
    let mut c = config();
    c.trailing_stop_enabled = false;
    assert_eq!(get_fixed_stop_price(&position, &c), 85);
    assert_eq!(resolve_stop_trigger(&position, 85, &c), Some((StopTrigger::FixedStopLoss, 85)));
    assert_eq!(resolve_stop_trigger(&position, 86, &c), None);
}

#[test]
fn no_sale_without_position_or_trigger() {
    let mut book = RiskBook::new();
    book.set_risk_config(9, config());
    assert!(process_price_update(&mut book, 9, 1, 10, None).is_none());
    book.update_position(9, 1, 50, 100);
    assert!(process_price_update(&mut book, 9, 1, 120, None).is_none());
    assert_eq!(book.get_position(9, 1).unwrap().high_price, 120);
    assert_eq!(get_trailing_stop_price(&book, 9, 1, &config()), Some(108));
}

#[test]
fn default_settings_use_fixed_stop() {
    let mut book = RiskBook::new();
    book.update_position(5, 1, 100, 100);
    let result = process_price_update(&mut book, 5, 1, 85, None).unwrap();
    assert_eq!(result.trigger, StopTrigger::FixedStopLoss);
    assert_eq!(result.trigger_price, 85);
}

#[test]
fn trailing_stop_tracks_high_water_mark() {
    let mut book = RiskBook::new();
    book.set_risk_config(1, config());
    book.update_position(1, 1, 1_000, 100);
    assert_eq!(get_trailing_stop_price(&book, 1, 1, &book.get_risk_config(1)), Some(90));
    assert!(process_price_update(&mut book, 1, 1, 150, None).is_none());
    assert_eq!(get_trailing_stop_price(&book, 1, 1, &book.get_risk_config(1)), Some(135));
    assert!(process_price_update(&mut book, 1, 1, 200, None).is_none());
    assert_eq!(get_trailing_stop_price(&book, 1, 1, &book.get_risk_config(1)), Some(180));
}

#[test]
fn risk_config_defaults_and_roundtrip() {
    let mut book = RiskBook::new();
    assert_eq!(book.get_risk_config(2), RiskConfig::default());
    let custom = RiskConfig { max_position_pct: 30, daily_trade_limit: 15, stop_loss_pct: 10, trailing_stop_enabled: true, trailing_stop_pct: 1500 };
    book.set_risk_config(2, custom);
    assert_eq!(book.get_risk_config(2), custom);
    assert_eq!(book.get_risk_config(3), RiskConfig::default());
}
