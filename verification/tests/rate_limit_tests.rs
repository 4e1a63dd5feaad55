use auto_trade::rate_limit::{BridgeRateLimits, RateLimiter, ViolationType};
use auto_trade::AutoTradeError;

const ADMIN: u64 = 1;
const USER: u64 = 2;
const AMOUNT: i128 = 2_0000000;

fn limiter() -> RateLimiter {
    let mut r = RateLimiter::new();
    r.set_admin(ADMIN);
    r
}

#[test]
fn default_limits_values() {
    let l = BridgeRateLimits::default();
    assert_eq!(l.per_user_hourly_transfers, 10);
    assert_eq!(l.min_transfer_amount, 1_0000000);
    assert_eq!(l.cooldown_between_transfers, 30);
}

#[test]
fn first_transfer_passes() {
    let r = limiter();
    assert_eq!(r.check_rate_limits(USER, AMOUNT, 1_000), Ok(()));
}

#[test]
fn below_minimum_is_rejected() {
    let r = limiter();
    assert_eq!(r.check_rate_limits(USER, 1_0000000 - 1, 1_000), Err(AutoTradeError::BelowMinTransfer));
}

#[test]
fn cooldown_applies_after_a_transfer() {
    let mut r = limiter();
    r.record_transfer(USER, AMOUNT, 1_000);
    assert_eq!(r.check_rate_limits(USER, AMOUNT, 1_010), Err(AutoTradeError::CooldownNotElapsed));
    assert_eq!(r.check_rate_limits(USER, AMOUNT, 1_030), Ok(()));
}

#[test]
fn hourly_count_limit() {
    let mut r = limiter();
    for i in 0..10u64 {
        r.record_transfer(USER, AMOUNT, 1_000 + i * 60);
    }
    assert_eq!(r.check_rate_limits(USER, AMOUNT, 1_000 + 10 * 60), Err(AutoTradeError::HourlyTransferLimitExceeded));
    // an hour after the first transfer it has left the window
    assert_eq!(r.check_rate_limits(USER, AMOUNT, 1_000 + 3_600 + 1), Ok(()));
}

#[test]
fn hourly_volume_limit() {
    let mut r = limiter();
    r.record_transfer(USER, 999_999_0000000, 1_000);
    assert_eq!(r.check_rate_limits(USER, AMOUNT, 1_100), Err(AutoTradeError::HourlyVolumeLimitExceeded));
}

#[test]
fn violations_escalate_penalties() {
    let mut r = limiter();
    r.record_violation(USER, ViolationType::CooldownViolation, 1_000).unwrap();
    assert_eq!(r.get_user_history(USER).penalty_until, 1_000 + 3_600);
    assert_eq!(r.check_rate_limits(USER, AMOUNT, 2_000), Err(AutoTradeError::RateLimitPenalty));
    r.record_violation(USER, ViolationType::CooldownViolation, 1_000).unwrap();
    r.record_violation(USER, ViolationType::CooldownViolation, 1_000).unwrap();
    let h = r.get_user_history(USER);
    assert_eq!(h.violation_count, 3);
    assert_eq!(h.penalty_until, 1_000 + 86_400);
}

#[test]
fn whitelist_bypasses_everything() {
    let mut r = limiter();
    r.record_violation(USER, ViolationType::BelowMinimum, 1_000).unwrap();
    r.add_to_whitelist(ADMIN, USER).unwrap();
    assert!(r.is_whitelisted(USER));
    assert_eq!(r.check_rate_limits(USER, 1, 1_001), Ok(()));
    r.remove_from_whitelist(ADMIN, USER).unwrap();
    assert_eq!(r.check_rate_limits(USER, 1, 1_001), Err(AutoTradeError::RateLimitPenalty));
}

#[test]
fn whitelist_changes_need_the_admin() {
    let mut r = limiter();
    assert_eq!(r.add_to_whitelist(USER, USER), Err(AutoTradeError::Unauthorized));
    assert!(!r.is_whitelisted(USER));
    r.add_to_whitelist(ADMIN, USER).unwrap();
    r.add_to_whitelist(ADMIN, USER).unwrap();
    assert_eq!(r.get_whitelist().len(), 1);
}

#[test]
fn set_rate_limits_needs_the_admin() {
    let mut r = limiter();
    let mut l = BridgeRateLimits::default();
    l.cooldown_between_transfers = 0;
    assert_eq!(r.set_rate_limits(USER, l), Err(AutoTradeError::Unauthorized));
    assert_eq!(r.get_limits().cooldown_between_transfers, 30);
    r.set_rate_limits(ADMIN, l).unwrap();
    assert_eq!(r.get_limits().cooldown_between_transfers, 0);
}

#[test]
fn load_adjustment_raises_limits_when_quiet() {
    let mut r = limiter();
    r.adjust_limits_based_on_load().unwrap();
    assert_eq!(r.get_limits().per_user_hourly_transfers, 11);
}

#[test]
fn load_adjustment_tightens_when_busy() {
    let mut r = limiter();
    for i in 0..900u64 {
        r.record_transfer(100 + i, AMOUNT, 1_000);
    }
    assert_eq!(r.get_global_hourly_count(), 900);
    r.adjust_limits_based_on_load().unwrap();
    assert_eq!(r.get_limits().per_user_hourly_transfers, 9);
    assert_eq!(r.get_limits().cooldown_between_transfers, 90);
    assert_eq!(r.check_rate_limits(5_000, AMOUNT, 1_000), Ok(()));
}

#[test]
fn global_capacity_limit() {
    let mut r = limiter();
    for i in 0..1000u64 {
        r.record_transfer(100 + i, AMOUNT, 1_000);
    }
    assert_eq!(r.check_rate_limits(USER, AMOUNT, 1_000), Err(AutoTradeError::GlobalCapacityExceeded));
}
