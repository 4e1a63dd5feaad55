//! Emergency pause of the bridge, with a recovery checklist that must be
//! completed before it is unpaused.
use vstd::prelude::*;
use crate::errors::AutoTradeError;
use crate::store::OrdMap;
use crate::AccountId;

verus! {

/// The persistent slots of the emergency state.
#[derive(Clone, Copy, Debug, PartialEq, Eq, Structural)]
pub enum EmergencyKey {
    PauseState,
    Admin,
    Recovery(u64),
    RecoveryCounter,
}

/// What a pause blocks.
#[derive(Clone, Copy, Debug, PartialEq, Eq, Structural)]
pub enum PauseType {
    /// All operations stopped.
    FullPause,
    /// New deposits blocked.
    DepositsOnly,
    /// New withdrawals blocked.
    WithdrawalsOnly,
    /// Validator signing blocked.
    ValidationOnly,
}

/// An operation that a pause may block.
#[derive(Clone, Copy, Debug, PartialEq, Eq, Structural)]
pub enum BridgeOperation {
    InitiateTransfer,
    InitiateWithdrawal,
    ValidatorSign,
    Other,
}

/// The pause state.
#[derive(Debug)]
pub struct PauseState {
    pub is_paused: bool,
    pub pause_type: PauseType,
    /// 0 when never paused.
    pub paused_at: u64,
    /// The last pauser; the contract itself when none.
    pub paused_by: AccountId,
    pub pause_reason: String,
    /// 0 when no automatic unpause is scheduled.
    pub auto_unpause_at: u64,
}

impl PauseState {
    pub fn duplicate(&self) -> (r: Self)
        ensures
            r == *self,
    {
        PauseState {
            is_paused: self.is_paused,
            pause_type: self.pause_type,
            paused_at: self.paused_at,
            paused_by: self.paused_by,
            pause_reason: self.pause_reason.clone(),
            auto_unpause_at: self.auto_unpause_at,
        }
    }
}

/// One item of a recovery checklist.
#[derive(Debug)]
pub struct RecoveryCheck {
    pub name: String,
    pub completed: bool,
    /// The contract itself until verified.
    pub verified_by: AccountId,
}

impl RecoveryCheck {
    pub fn duplicate(&self) -> (r: Self)
        ensures
            r == *self,
    {
        RecoveryCheck { name: self.name.clone(), completed: self.completed, verified_by: self.verified_by }
    }
}

/// A copy of a list of checks, with the check at `mark` (if any) completed
/// and verified by `verifier`.
fn copy_checks(checks: &Vec<RecoveryCheck>, mark: Option<usize>, verifier: AccountId) -> (r: Vec<RecoveryCheck>)
    ensures
        r@.len() == checks@.len(),
        forall|i: int| 0 <= i < checks@.len() ==> #[trigger] r@[i] == (if mark == Some(i as usize) {
            RecoveryCheck { name: checks@[i].name, completed: true, verified_by: verifier }
        } else {
            checks@[i]
        }),
{
    let mut out: Vec<RecoveryCheck> = Vec::new();
    let mut i: usize = 0;
    while i < checks.len()
        invariant
            i <= checks@.len(),
            out@.len() == i,
            forall|j: int| 0 <= j < i ==> #[trigger] out@[j] == (if mark == Some(j as usize) {
                RecoveryCheck { name: checks@[j].name, completed: true, verified_by: verifier }
            } else {
                checks@[j]
            }),
        decreases checks@.len() - i,
    {
        let mut c = checks[i].duplicate();
        if mark == Some(i) {
            c.completed = true;
            c.verified_by = verifier;
        }
        out.push(c);
        i = i + 1;
    }
    out
}

/// The checklist of a recovery.
#[derive(Debug)]
pub struct RecoveryChecklist {
    pub recovery_id: u64,
    pub initiated_by: AccountId,
    pub initiated_at: u64,
    pub checks: Vec<RecoveryCheck>,
    pub all_checks_complete: bool,
}

/// The checks every recovery goes through, in order.
pub open spec fn recovery_check_names() -> Seq<Seq<char>> {
    seq![
        "Verify all pending transfers resolved"@,
        "Confirm issue that caused pause is fixed"@,
        "Test bridge with small transfer"@,
        "Verify validator set is healthy"@,
        "Confirm liquidity pools functioning"@,
    ]
}

/// Whether every check of a list is completed.
pub open spec fn all_completed(checks: Seq<RecoveryCheck>) -> bool {
    forall|i: int| 0 <= i < checks.len() ==> #[trigger] checks[i].completed
}

/// Whether a pause of the given type blocks an operation.
pub open spec fn blocks(pause_type: PauseType, op: BridgeOperation) -> bool {
    match pause_type {
        PauseType::FullPause => true,
        PauseType::DepositsOnly => op == BridgeOperation::InitiateTransfer,
        PauseType::WithdrawalsOnly => op == BridgeOperation::InitiateWithdrawal,
        PauseType::ValidationOnly => op == BridgeOperation::ValidatorSign,
    }
}

/// The state after a first pause.
pub open spec fn paused_state(pause_type: PauseType, now: u64, caller: AccountId, reason: String) -> PauseState {
    PauseState {
        is_paused: true,
        pause_type: pause_type,
        paused_at: now,
        paused_by: caller,
        pause_reason: reason,
        auto_unpause_at: 0,
    }
}

/// The state after an unpause: not paused, nothing scheduled, the rest kept.
pub open spec fn unpaused_state(p: PauseState) -> PauseState {
    PauseState { is_paused: false, auto_unpause_at: 0, ..p }
}

/// The state with an automatic unpause scheduled at `at`.
pub open spec fn scheduled_state(p: PauseState, at: int) -> PauseState {
    PauseState { auto_unpause_at: at as u64, ..p }
}

/// The emergency admin, the pause state and the recoveries started so far.
pub struct EmergencyState {
    pub contract_id: AccountId,
    pub admin: Option<AccountId>,
    pub pause: PauseState,
    pub recoveries: OrdMap<RecoveryChecklist>,
    pub recovery_counter: u64,
}

impl EmergencyState {
    /// Each stored checklist is keyed by its id and its completion flag
    /// says whether all of its checks are done.
    pub open spec fn wf(&self) -> bool {
        forall|k: u128| #[trigger] self.recoveries@.contains_key(k) ==> {
            &&& self.recoveries@[k].recovery_id == k
            &&& k <= self.recovery_counter
            &&& self.recoveries@[k].all_checks_complete == all_completed(self.recoveries@[k].checks@)
        }
    }

    pub open spec fn is_admin_spec(&self, caller: AccountId) -> bool {
        self.admin == Some(caller)
    }

    /// A fresh state: not paused, no admin, no recovery.
    pub fn new(contract_id: AccountId) -> (r: Self)
        ensures
            r.wf(),
            r.contract_id == contract_id,
            r.admin == None::<AccountId>,
            !r.pause.is_paused,
            r.pause.pause_type == PauseType::FullPause,
            r.pause.paused_at == 0,
            r.pause.paused_by == contract_id,
            r.pause.pause_reason@ == ""@,
            r.pause.auto_unpause_at == 0,
            r.recoveries@ == Map::<u128, RecoveryChecklist>::empty(),
            r.recovery_counter == 0,
    {
        EmergencyState {
            contract_id: contract_id,
            admin: None,
            pause: PauseState {
                is_paused: false,
                pause_type: PauseType::FullPause,
                paused_at: 0,
                paused_by: contract_id,
                pause_reason: String::from_str(""),
                auto_unpause_at: 0,
            },
            recoveries: OrdMap::new(),
            recovery_counter: 0,
        }
    }

    pub fn set_emergency_admin(&mut self, admin: AccountId)
        ensures
            final(self).admin == Some(admin),
            final(self).pause == old(self).pause,
            final(self).recoveries@ == old(self).recoveries@,
            final(self).recovery_counter == old(self).recovery_counter,
            final(self).contract_id == old(self).contract_id,
    {
        self.admin = Some(admin);
    }

    pub fn get_emergency_admin(&self) -> (r: Option<AccountId>)
        ensures
            r == self.admin,
    {
        self.admin
    }

    fn is_admin(&self, caller: AccountId) -> (r: bool)
        ensures
            r == self.is_admin_spec(caller),
    {
        match self.admin {
            Some(a) => a == caller,
            None => false,
        }
    }

    /// The pause state.
    pub fn get_pause_status(&self) -> (r: PauseState)
        ensures
            r == self.pause,
    {
        self.pause.duplicate()
    }

    /// Pauses the bridge (admin only). The first pause wins: while paused,
    /// a further pause changes nothing and succeeds.
    pub fn emergency_pause(&mut self, caller: AccountId, pause_type: PauseType, reason: String, now: u64) -> (r: Result<(), AutoTradeError>)
        ensures
            final(self).admin == old(self).admin,
            final(self).recoveries@ == old(self).recoveries@,
            final(self).recovery_counter == old(self).recovery_counter,
            final(self).contract_id == old(self).contract_id,
            !old(self).is_admin_spec(caller) ==> r == Err::<(), AutoTradeError>(AutoTradeError::Unauthorized) && final(self).pause == old(self).pause,
            old(self).is_admin_spec(caller) ==> r is Ok,
            (old(self).is_admin_spec(caller) && old(self).pause.is_paused) ==> final(self).pause == old(self).pause,
            (old(self).is_admin_spec(caller) && !old(self).pause.is_paused) ==>
                final(self).pause == paused_state(pause_type, now, caller, reason),
    {
        if !self.is_admin(caller) {
            return Err(AutoTradeError::Unauthorized);
        }
        if self.pause.is_paused {
            return Ok(());
        }
        self.pause = PauseState {
            is_paused: true,
            pause_type: pause_type,
            paused_at: now,
            paused_by: caller,
            pause_reason: reason,
            auto_unpause_at: 0,
        };
        Ok(())
    }

    /// Checks an operation against the pause at `now`. A due automatic
    /// unpause is carried out first and lets everything through.
    pub fn enforce_pause(&mut self, op: BridgeOperation, now: u64) -> (r: Result<(), AutoTradeError>)
        ensures
            final(self).admin == old(self).admin,
            final(self).recoveries@ == old(self).recoveries@,
            final(self).recovery_counter == old(self).recovery_counter,
            final(self).contract_id == old(self).contract_id,
            !old(self).pause.is_paused ==> r is Ok && final(self).pause == old(self).pause,
            (old(self).pause.is_paused && old(self).pause.auto_unpause_at > 0 && now >= old(self).pause.auto_unpause_at) ==> {
                &&& r is Ok
                &&& final(self).pause == unpaused_state(old(self).pause)
            },
            (old(self).pause.is_paused && !(old(self).pause.auto_unpause_at > 0 && now >= old(self).pause.auto_unpause_at)) ==> {
                &&& final(self).pause == old(self).pause
                &&& r == (if blocks(old(self).pause.pause_type, op) { Err(AutoTradeError::BridgePaused) } else { Ok(()) })
            },
    {
        if !self.pause.is_paused {
            return Ok(());
        }
        if self.pause.auto_unpause_at > 0 && now >= self.pause.auto_unpause_at {
            self.pause.is_paused = false;
            self.pause.auto_unpause_at = 0;
            return Ok(());
        }
        let blocked = match self.pause.pause_type {
            PauseType::FullPause => true,
            PauseType::DepositsOnly => op == BridgeOperation::InitiateTransfer,
            PauseType::WithdrawalsOnly => op == BridgeOperation::InitiateWithdrawal,
            PauseType::ValidationOnly => op == BridgeOperation::ValidatorSign,
        };
        if blocked {
            return Err(AutoTradeError::BridgePaused);
        }
        Ok(())
    }

    /// Schedules an automatic unpause `unpause_after_seconds` from `now`
    /// (admin only, while paused).
    pub fn set_auto_unpause(&mut self, caller: AccountId, unpause_after_seconds: u64, now: u64) -> (r: Result<(), AutoTradeError>)
        requires
            (old(self).is_admin_spec(caller) && old(self).pause.is_paused) ==> now + unpause_after_seconds <= u64::MAX,
        ensures
            final(self).admin == old(self).admin,
            final(self).recoveries@ == old(self).recoveries@,
            final(self).recovery_counter == old(self).recovery_counter,
            final(self).contract_id == old(self).contract_id,
            !old(self).is_admin_spec(caller) ==> r == Err::<(), AutoTradeError>(AutoTradeError::Unauthorized) && final(self).pause == old(self).pause,
            (old(self).is_admin_spec(caller) && !old(self).pause.is_paused) ==> r == Err::<(), AutoTradeError>(AutoTradeError::NotPaused) && final(self).pause == old(self).pause,
            (old(self).is_admin_spec(caller) && old(self).pause.is_paused) ==>
                r is Ok && final(self).pause == scheduled_state(old(self).pause, now + unpause_after_seconds),
    {
        if !self.is_admin(caller) {
            return Err(AutoTradeError::Unauthorized);
        }
        if !self.pause.is_paused {
            return Err(AutoTradeError::NotPaused);
        }
        self.pause.auto_unpause_at = now + unpause_after_seconds;
        Ok(())
    }
}


impl RecoveryChecklist {
    pub fn duplicate(&self) -> (r: Self)
        ensures
            r.recovery_id == self.recovery_id,
            r.initiated_by == self.initiated_by,
            r.initiated_at == self.initiated_at,
            r.checks@ == self.checks@,
            r.all_checks_complete == self.all_checks_complete,
    {
        let checks = copy_checks(&self.checks, None, 0);
        proof { assert(checks@ =~= self.checks@); }
        RecoveryChecklist {
            recovery_id: self.recovery_id,
            initiated_by: self.initiated_by,
            initiated_at: self.initiated_at,
            checks: checks,
            all_checks_complete: self.all_checks_complete,
        }
    }
}

/// Whether every check of a list is completed, by a scan.
fn scan_all_completed(checks: &Vec<RecoveryCheck>) -> (r: bool)
    ensures
        r == all_completed(checks@),
{
    let mut i: usize = 0;
    while i < checks.len()
        invariant
            i <= checks@.len(),
            forall|j: int| 0 <= j < i ==> #[trigger] checks@[j].completed,
        decreases checks@.len() - i,
    {
        if !checks[i].completed {
            return false;
        }
        i = i + 1;
    }
    true
}

impl EmergencyState {
    /// A copy of a stored checklist.
    pub fn get_recovery_checklist(&self, recovery_id: u64) -> (r: Option<RecoveryChecklist>)
        ensures
            match r {
                Some(c) => {
                    let s = self.recoveries@[recovery_id as u128];
                    &&& self.recoveries@.contains_key(recovery_id as u128)
                    &&& c.recovery_id == s.recovery_id
                    &&& c.initiated_by == s.initiated_by
                    &&& c.initiated_at == s.initiated_at
                    &&& c.checks@ == s.checks@
                    &&& c.all_checks_complete == s.all_checks_complete
                },
                None => !self.recoveries@.contains_key(recovery_id as u128),
            },
    {
        match self.recoveries.get(recovery_id as u128) {
            Some(c) => Some(c.duplicate()),
            None => None,
        }
    }

    /// Starts a recovery while paused (admin only): a new checklist of the
    /// five standard checks, none completed.
    pub fn initiate_recovery(&mut self, caller: AccountId, now: u64) -> (r: Result<u64, AutoTradeError>)
        requires
            old(self).wf(),
            (old(self).is_admin_spec(caller) && old(self).pause.is_paused) ==> old(self).recovery_counter < u64::MAX,
        ensures
            final(self).wf(),
            final(self).admin == old(self).admin,
            final(self).pause == old(self).pause,
            final(self).contract_id == old(self).contract_id,
            !old(self).is_admin_spec(caller) ==> r == Err::<u64, AutoTradeError>(AutoTradeError::Unauthorized),
            (old(self).is_admin_spec(caller) && !old(self).pause.is_paused) ==> r == Err::<u64, AutoTradeError>(AutoTradeError::NotPaused),
            r is Err ==> final(self).recoveries@ == old(self).recoveries@ && final(self).recovery_counter == old(self).recovery_counter,
            (old(self).is_admin_spec(caller) && old(self).pause.is_paused) ==> r is Ok,
            r matches Ok(id) ==> {
                let c = final(self).recoveries@[id as u128];
                &&& id == old(self).recovery_counter + 1
                &&& final(self).recovery_counter == id
                &&& final(self).recoveries@ == old(self).recoveries@.insert(id as u128, c)
                &&& c.recovery_id == id
                &&& c.initiated_by == caller
                &&& c.initiated_at == now
                &&& !c.all_checks_complete
                &&& c.checks@.len() == recovery_check_names().len()
                &&& forall|i: int| 0 <= i < c.checks@.len() ==> {
                    &&& (#[trigger] c.checks@[i]).name@ == recovery_check_names()[i]
                    &&& !c.checks@[i].completed
                    &&& c.checks@[i].verified_by == old(self).contract_id
                }
            },
    {
        if !self.is_admin(caller) {
            return Err(AutoTradeError::Unauthorized);
        }
        if !self.pause.is_paused {
            return Err(AutoTradeError::NotPaused);
        }
        let recovery_id = self.recovery_counter + 1;
        self.recovery_counter = recovery_id;
        let sentinel = self.contract_id;
        let mut checks: Vec<RecoveryCheck> = Vec::new();
        checks.push(RecoveryCheck { name: String::from_str("Verify all pending transfers resolved"), completed: false, verified_by: sentinel });
        checks.push(RecoveryCheck { name: String::from_str("Confirm issue that caused pause is fixed"), completed: false, verified_by: sentinel });
        checks.push(RecoveryCheck { name: String::from_str("Test bridge with small transfer"), completed: false, verified_by: sentinel });
        checks.push(RecoveryCheck { name: String::from_str("Verify validator set is healthy"), completed: false, verified_by: sentinel });
        checks.push(RecoveryCheck { name: String::from_str("Confirm liquidity pools functioning"), completed: false, verified_by: sentinel });
        proof { assert(!checks@[0].completed); }
        let checklist = RecoveryChecklist {
            recovery_id: recovery_id,
            initiated_by: caller,
            initiated_at: now,
            checks: checks,
            all_checks_complete: false,
        };
        self.recoveries.insert(recovery_id as u128, checklist);
        proof {
            assert(self.recoveries@ =~= old(self).recoveries@.insert(recovery_id as u128, self.recoveries@[recovery_id as u128]));
        }
        Ok(recovery_id)
    }

    /// Marks check `check_index` of a recovery as completed by `verifier`
    /// (admin only) and records whether the whole checklist is now done.
    pub fn complete_recovery_check(&mut self, recovery_id: u64, check_index: u32, verifier: AccountId) -> (r: Result<(), AutoTradeError>)
        requires
            old(self).wf(),
        ensures
            final(self).wf(),
            final(self).admin == old(self).admin,
            final(self).pause == old(self).pause,
            final(self).contract_id == old(self).contract_id,
            final(self).recovery_counter == old(self).recovery_counter,
            !old(self).is_admin_spec(verifier) ==> r == Err::<(), AutoTradeError>(AutoTradeError::Unauthorized),
            (old(self).is_admin_spec(verifier) && !old(self).recoveries@.contains_key(recovery_id as u128)) ==>
                r == Err::<(), AutoTradeError>(AutoTradeError::RecoveryNotFound),
            (old(self).is_admin_spec(verifier) && old(self).recoveries@.contains_key(recovery_id as u128)
                && check_index >= old(self).recoveries@[recovery_id as u128].checks@.len()) ==>
                r == Err::<(), AutoTradeError>(AutoTradeError::InvalidAmount),
            r is Err ==> final(self).recoveries@ == old(self).recoveries@,
            r is Ok ==> {
                let o = old(self).recoveries@[recovery_id as u128];
                let c = final(self).recoveries@[recovery_id as u128];
                &&& old(self).is_admin_spec(verifier)
                &&& old(self).recoveries@.contains_key(recovery_id as u128)
                &&& check_index < o.checks@.len()
                &&& final(self).recoveries@ == old(self).recoveries@.insert(recovery_id as u128, c)
                &&& c.recovery_id == o.recovery_id
                &&& c.initiated_by == o.initiated_by
                &&& c.initiated_at == o.initiated_at
                &&& c.checks@ == o.checks@.update(check_index as int,
                    RecoveryCheck { name: o.checks@[check_index as int].name, completed: true, verified_by: verifier })
                &&& c.all_checks_complete == all_completed(c.checks@)
            },
    {
        if !self.is_admin(verifier) {
            return Err(AutoTradeError::Unauthorized);
        }
        let checklist = match self.recoveries.get(recovery_id as u128) {
            Some(c) => c,
            None => return Err(AutoTradeError::RecoveryNotFound),
        };
        if check_index as usize >= checklist.checks.len() {
            return Err(AutoTradeError::InvalidAmount);
        }
        let new_checks = copy_checks(&checklist.checks, Some(check_index as usize), verifier);
        let all_done = scan_all_completed(&new_checks);
        let updated = RecoveryChecklist {
            recovery_id: checklist.recovery_id,
            initiated_by: checklist.initiated_by,
            initiated_at: checklist.initiated_at,
            checks: new_checks,
            all_checks_complete: all_done,
        };
        let ghost o = self.recoveries@[recovery_id as u128];
        proof {
            assert(updated.checks@ =~= o.checks@.update(check_index as int,
                RecoveryCheck { name: o.checks@[check_index as int].name, completed: true, verified_by: verifier }));
        }
        self.recoveries.insert(recovery_id as u128, updated);
        proof {
            assert(self.recoveries@ =~= old(self).recoveries@.insert(recovery_id as u128, self.recoveries@[recovery_id as u128]));
        }
        Ok(())
    }

    /// Unpauses once the given recovery's checklist is complete (admin
    /// only).
    pub fn unpause_bridge(&mut self, caller: AccountId, recovery_id: u64) -> (r: Result<(), AutoTradeError>)
        ensures
            final(self).admin == old(self).admin,
            final(self).recoveries@ == old(self).recoveries@,
            final(self).recovery_counter == old(self).recovery_counter,
            final(self).contract_id == old(self).contract_id,
            !old(self).is_admin_spec(caller) ==> r == Err::<(), AutoTradeError>(AutoTradeError::Unauthorized),
            (old(self).is_admin_spec(caller) && !old(self).recoveries@.contains_key(recovery_id as u128)) ==>
                r == Err::<(), AutoTradeError>(AutoTradeError::RecoveryNotFound),
            (old(self).is_admin_spec(caller) && old(self).recoveries@.contains_key(recovery_id as u128)
                && !old(self).recoveries@[recovery_id as u128].all_checks_complete) ==>
                r == Err::<(), AutoTradeError>(AutoTradeError::RecoveryIncomplete),
            r is Err ==> final(self).pause == old(self).pause,
            r is Ok <==> (old(self).is_admin_spec(caller) && old(self).recoveries@.contains_key(recovery_id as u128)
                && old(self).recoveries@[recovery_id as u128].all_checks_complete),
            r is Ok ==> final(self).pause == unpaused_state(old(self).pause),
    {
        if !self.is_admin(caller) {
            return Err(AutoTradeError::Unauthorized);
        }
        let complete = match self.recoveries.get(recovery_id as u128) {
            Some(c) => c.all_checks_complete,
            None => return Err(AutoTradeError::RecoveryNotFound),
        };
        if !complete {
            return Err(AutoTradeError::RecoveryIncomplete);
        }
        self.pause.is_paused = false;
        self.pause.auto_unpause_at = 0;
        Ok(())
    }
}


/// A full pause stops every bridge operation.
pub proof fn law_full_pause_blocks_everything(op: BridgeOperation)
    ensures
        blocks(PauseType::FullPause, op),
{
}

}
