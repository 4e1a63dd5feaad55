use auto_trade::admin::{cat_all_name, cat_trading_name, AdminState};
use auto_trade::auth::AuthBook;
use auto_trade::AutoTradeError;

const ADMIN: u64 = 1;
const USER: u64 = 2;

fn admin() -> AdminState {
    let mut a = AdminState::new();
    a.init_admin(ADMIN, 0);
    a
}

#[test]
fn pause_and_unpause_a_category() {
    let mut a = admin();
    a.pause_category(ADMIN, cat_trading_name(), None, "halt".to_string(), 100).unwrap();
    assert!(a.is_paused(&cat_trading_name(), 100));
    assert!(a.is_paused(&cat_trading_name(), 1_000_000));
    a.unpause_category(ADMIN, cat_trading_name()).unwrap();
    assert!(!a.is_paused(&cat_trading_name(), 100));
}

#[test]
fn timed_pause_lapses() {
    let mut a = admin();
    a.pause_category(ADMIN, cat_trading_name(), Some(50), "short".to_string(), 100).unwrap();
    assert!(a.is_paused(&cat_trading_name(), 149));
    assert!(!a.is_paused(&cat_trading_name(), 150));
}

#[test]
fn pausing_all_pauses_every_category() {
    let mut a = admin();
    a.pause_category(ADMIN, cat_all_name(), None, "all".to_string(), 100).unwrap();
    assert!(a.is_paused(&cat_trading_name(), 100));
    assert!(a.is_paused(&"other".to_string(), 100));
}

#[test]
fn only_the_admin_pauses_categories() {
    let mut a = admin();
    assert_eq!(a.pause_category(USER, cat_trading_name(), None, "x".to_string(), 100), Err(AutoTradeError::Unauthorized));
    assert!(!a.is_paused(&cat_trading_name(), 100));
    assert_eq!(a.require_admin(USER), Err(AutoTradeError::Unauthorized));
    assert_eq!(a.require_admin(ADMIN), Ok(()));
}

#[test]
fn circuit_breaker_trip_pauses_everything() {
    let mut a = admin();
    a.update_cb_stats(true, 10, 100, 500, None);
    assert!(!a.is_paused(&cat_trading_name(), 500));
    a.update_cb_stats(true, 10, 100, 510, Some("failures".to_string()));
    assert!(a.is_paused(&cat_trading_name(), 510));
}

#[test]
fn grant_authorizes_within_limits() {
    let mut b = AuthBook::new();
    b.grant_authorization(USER, 500, 1, 1_000).unwrap();
    assert!(b.is_authorized(USER, 500, 1_000));
    assert!(!b.is_authorized(USER, 501, 1_000));
    assert!(b.is_authorized(USER, 10, 1_000 + 86_399));
    assert!(!b.is_authorized(USER, 10, 1_000 + 86_400));
    let cfg = b.get_auth_config(USER).unwrap();
    assert_eq!(cfg.expires_at, 1_000 + 86_400);
}

#[test]
fn revoke_and_invalid_grant() {
    let mut b = AuthBook::new();
    assert_eq!(b.grant_authorization(USER, 0, 1, 1_000), Err(AutoTradeError::InvalidAmount));
    b.grant_authorization(USER, 500, 1, 1_000).unwrap();
    b.revoke_authorization(USER).unwrap();
    assert!(!b.is_authorized(USER, 1, 1_000));
    assert!(b.get_auth_config(USER).is_none());
}
