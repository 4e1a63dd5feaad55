use auto_trade::emergency::{BridgeOperation, EmergencyState, PauseType};
use auto_trade::AutoTradeError;

const CONTRACT: u64 = 99;
const ADMIN: u64 = 1;
const OTHER: u64 = 2;

fn state() -> EmergencyState {
    let mut s = EmergencyState::new(CONTRACT);
    s.set_emergency_admin(ADMIN);
    s
}

#[test]
fn only_the_emergency_admin_pauses() {
    let mut s = state();
    assert_eq!(s.emergency_pause(OTHER, PauseType::FullPause, "x".to_string(), 10), Err(AutoTradeError::Unauthorized));
    assert!(!s.get_pause_status().is_paused);
}

#[test]
fn first_pause_wins() {
    let mut s = state();
    s.emergency_pause(ADMIN, PauseType::DepositsOnly, "first".to_string(), 10).unwrap();
    s.emergency_pause(ADMIN, PauseType::FullPause, "second".to_string(), 20).unwrap();
    let p = s.get_pause_status();
    assert_eq!(p.pause_type, PauseType::DepositsOnly);
    assert_eq!(p.pause_reason, "first");
    assert_eq!(p.paused_at, 10);
}

#[test]
fn pause_types_block_their_operations() {
    let mut s = state();
    s.emergency_pause(ADMIN, PauseType::DepositsOnly, "r".to_string(), 10).unwrap();
    assert_eq!(s.enforce_pause(BridgeOperation::InitiateTransfer, 11), Err(AutoTradeError::BridgePaused));
    assert_eq!(s.enforce_pause(BridgeOperation::InitiateWithdrawal, 11), Ok(()));
    let mut f = state();
    f.emergency_pause(ADMIN, PauseType::FullPause, "r".to_string(), 10).unwrap();
    assert_eq!(f.enforce_pause(BridgeOperation::Other, 11), Err(AutoTradeError::BridgePaused));
}

#[test]
fn auto_unpause_lifts_the_pause_when_due() {
    let mut s = state();
    s.emergency_pause(ADMIN, PauseType::FullPause, "r".to_string(), 10).unwrap();
    s.set_auto_unpause(ADMIN, 100, 10).unwrap();
    assert_eq!(s.enforce_pause(BridgeOperation::Other, 50), Err(AutoTradeError::BridgePaused));
    assert_eq!(s.enforce_pause(BridgeOperation::Other, 110), Ok(()));
    assert!(!s.get_pause_status().is_paused);
}

#[test]
fn recovery_needs_every_check() {
    let mut s = state();
    s.emergency_pause(ADMIN, PauseType::FullPause, "r".to_string(), 10).unwrap();
    let id = s.initiate_recovery(ADMIN, 20).unwrap();
    let checklist = s.get_recovery_checklist(id).unwrap();
    assert_eq!(checklist.checks.len(), 5);
    assert!(!checklist.all_checks_complete);
    assert_eq!(s.unpause_bridge(ADMIN, id), Err(AutoTradeError::RecoveryIncomplete));
    assert_eq!(s.complete_recovery_check(id, 0, OTHER), Err(AutoTradeError::Unauthorized));
    for i in 0..5u32 {
        s.complete_recovery_check(id, i, ADMIN).unwrap();
    }
    assert_eq!(s.complete_recovery_check(id, 5, ADMIN), Err(AutoTradeError::InvalidAmount));
    assert!(s.get_recovery_checklist(id).unwrap().all_checks_complete);
    assert_eq!(s.unpause_bridge(OTHER, id), Err(AutoTradeError::Unauthorized));
    s.unpause_bridge(ADMIN, id).unwrap();
    assert!(!s.get_pause_status().is_paused);
}

#[test]
fn unknown_recovery_is_reported() {
    let mut s = state();
    assert_eq!(s.unpause_bridge(ADMIN, 42), Err(AutoTradeError::RecoveryNotFound));
}
