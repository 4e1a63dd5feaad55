//! Contract administration: the admin, per-category pauses, and the
//! circuit breaker's running statistics.
use vstd::prelude::*;
use crate::errors::AutoTradeError;
use crate::AccountId;

verus! {

/// The persistent slots of the admin state.
#[derive(Clone, Copy, Debug, PartialEq, Eq, Structural)]
pub enum AdminStorageKey {
    Admin,
    PauseStates,
    CircuitBreakerStats,
    CircuitBreakerConfig,
}

/// The category whose pause stops everything.
pub open spec fn cat_all() -> Seq<char> {
    "all"@
}

/// The category of trading.
pub open spec fn cat_trading() -> Seq<char> {
    "trading"@
}

pub fn cat_all_name() -> (r: String)
    ensures
        r@ == cat_all(),
{
    String::from_str("all")
}

pub fn cat_trading_name() -> (r: String)
    ensures
        r@ == cat_trading(),
{
    String::from_str("trading")
}

/// The pause of one category.
#[derive(Debug)]
pub struct PauseState {
    pub paused: bool,
    pub paused_at: u64,
    pub auto_unpause_at: Option<u64>,
    pub reason: String,
}

impl PauseState {
    pub fn duplicate(&self) -> (r: Self)
        ensures
            r == *self,
    {
        PauseState { paused: self.paused, paused_at: self.paused_at, auto_unpause_at: self.auto_unpause_at, reason: self.reason.clone() }
    }
}

/// The circuit breaker's counters over the current window.
#[derive(Clone, Copy, Debug, PartialEq, Eq, Structural)]
pub struct CircuitBreakerStats {
    pub attempts_window: u32,
    pub failures_window: u32,
    pub window_start: u64,
    pub volume_1h: i128,
    pub volume_24h_avg: i128,
    pub last_price: i128,
    pub last_price_time: u64,
}

/// Length of the circuit breaker's counting window, in seconds.
pub const CB_WINDOW_SECONDS: u64 = 600;

/// Whether a pause is in force at `now`.
pub open spec fn state_active(s: PauseState, now: u64) -> bool {
    s.paused && match s.auto_unpause_at {
        Some(t) => now < t,
        None => true,
    }
}

/// The index of the entry for a category, if any.
pub open spec fn category_index(states: Seq<(String, PauseState)>, cat: Seq<char>) -> int {
    choose|i: int| 0 <= i < states.len() && #[trigger] states[i].0@ == cat
}

pub open spec fn has_category(states: Seq<(String, PauseState)>, cat: Seq<char>) -> bool {
    exists|i: int| 0 <= i < states.len() && #[trigger] states[i].0@ == cat
}

/// Each category has at most one entry.
pub open spec fn categories_unique(states: Seq<(String, PauseState)>) -> bool {
    forall|i: int, j: int| 0 <= i < states.len() && 0 <= j < states.len() && i != j ==>
        #[trigger] states[i].0@ != #[trigger] states[j].0@
}

/// The pause recorded for a category, if any.
pub open spec fn pause_for(states: Seq<(String, PauseState)>, cat: Seq<char>) -> Option<PauseState> {
    if has_category(states, cat) { Some(states[category_index(states, cat)].1) } else { None }
}

/// Whether operations of a category are paused at `now`: a pause of every
/// category in force, or one of this category in force.
pub open spec fn paused_at_time(states: Seq<(String, PauseState)>, cat: Seq<char>, now: u64) -> bool {
    (pause_for(states, cat_all()) matches Some(a) && state_active(a, now))
        || (pause_for(states, cat) matches Some(p) && state_active(p, now))
}

/// The pause a category gets at `now`, lapsing after `duration` seconds
/// when one is given.
pub open spec fn pause_record(now: u64, duration: Option<u64>, reason: String) -> PauseState {
    PauseState {
        paused: true,
        paused_at: now,
        auto_unpause_at: match duration { Some(d) => Some((now + d) as u64), None => None },
        reason: reason,
    }
}

/// The statistics after one more execution is counted.
pub open spec fn stats_after(s: CircuitBreakerStats, failed: bool, volume: int, price: int, now: u64) -> CircuitBreakerStats {
    let reset = now >= s.window_start + CB_WINDOW_SECONDS;
    let attempts = if reset { 0 } else { s.attempts_window as int };
    let failures = if reset { 0 } else { s.failures_window as int };
    CircuitBreakerStats {
        attempts_window: (attempts + 1) as u32,
        failures_window: (if failed { failures + 1 } else { failures }) as u32,
        window_start: if reset { now } else { s.window_start },
        volume_1h: (s.volume_1h + volume) as i128,
        volume_24h_avg: s.volume_24h_avg,
        last_price: if price > 0 { price as i128 } else { s.last_price },
        last_price_time: if price > 0 { now } else { s.last_price_time },
    }
}

/// The admin, the category pauses and the circuit breaker's statistics.
pub struct AdminState {
    pub admin: Option<AccountId>,
    pub pause_states: Vec<(String, PauseState)>,
    pub cb_stats: CircuitBreakerStats,
}

impl AdminState {
    pub open spec fn wf(&self) -> bool {
        categories_unique(self.pause_states@)
    }

    /// An uninitialized state.
    pub fn new() -> (r: Self)
        ensures
            r.wf(),
            r.admin == None::<AccountId>,
            r.pause_states@ == Seq::<(String, PauseState)>::empty(),
            r.cb_stats == (CircuitBreakerStats {
                attempts_window: 0, failures_window: 0, window_start: 0, volume_1h: 0,
                volume_24h_avg: 0, last_price: 0, last_price_time: 0,
            }),
    {
        AdminState {
            admin: None,
            pause_states: Vec::new(),
            cb_stats: CircuitBreakerStats {
                attempts_window: 0, failures_window: 0, window_start: 0, volume_1h: 0,
                volume_24h_avg: 0, last_price: 0, last_price_time: 0,
            },
        }
    }

    /// Sets the admin once, clears the pauses and starts the statistics'
    /// window at `now`.
    pub fn init_admin(&mut self, admin: AccountId, now: u64)
        requires
            old(self).admin is None,
        ensures
            final(self).wf(),
            final(self).admin == Some(admin),
            final(self).pause_states@ == Seq::<(String, PauseState)>::empty(),
            final(self).cb_stats == (CircuitBreakerStats {
                attempts_window: 0, failures_window: 0, window_start: now, volume_1h: 0,
                volume_24h_avg: 0, last_price: 0, last_price_time: 0,
            }),
    {
        self.admin = Some(admin);
        self.pause_states = Vec::new();
        self.cb_stats = CircuitBreakerStats {
            attempts_window: 0, failures_window: 0, window_start: now, volume_1h: 0,
            volume_24h_avg: 0, last_price: 0, last_price_time: 0,
        };
    }

    pub fn get_admin(&self) -> (r: Option<AccountId>)
        ensures
            r == self.admin,
    {
        self.admin
    }

    pub fn require_admin(&self, caller: AccountId) -> (r: Result<(), AutoTradeError>)
        ensures
            r is Ok <==> self.admin == Some(caller),
            r is Err ==> r == Err::<(), AutoTradeError>(AutoTradeError::Unauthorized),
    {
        match self.admin {
            Some(a) => if a == caller { Ok(()) } else { Err(AutoTradeError::Unauthorized) },
            None => Err(AutoTradeError::Unauthorized),
        }
    }

    /// Position of a category's entry.
    fn find_category(&self, category: &String) -> (r: Option<usize>)
        requires
            self.wf(),
        ensures
            match r {
                Some(i) => i < self.pause_states@.len() && self.pause_states@[i as int].0@ == category@
                    && has_category(self.pause_states@, category@) && category_index(self.pause_states@, category@) == i,
                None => !has_category(self.pause_states@, category@),
            },
    {
        let mut i: usize = 0;
        while i < self.pause_states.len()
            invariant
                i <= self.pause_states@.len(),
                categories_unique(self.pause_states@),
                forall|j: int| 0 <= j < i ==> #[trigger] self.pause_states@[j].0@ != category@,
            decreases self.pause_states@.len() - i,
        {
            if self.pause_states[i].0 == *category {
                proof {
                    assert(self.pause_states@[i as int].0@ == category@);
                    assert(has_category(self.pause_states@, category@));
                    let k = category_index(self.pause_states@, category@);
                    if k != i as int {
                        assert(self.pause_states@[k].0@ != self.pause_states@[i as int].0@);
                    }
                }
                return Some(i);
            }
            i = i + 1;
        }
        None
    }

    /// A copy of the category pauses.
    pub fn get_pause_states(&self) -> (r: Vec<(String, PauseState)>)
        ensures
            r@ == self.pause_states@,
    {
        let mut out: Vec<(String, PauseState)> = Vec::new();
        let mut i: usize = 0;
        while i < self.pause_states.len()
            invariant
                i <= self.pause_states@.len(),
                out@ == self.pause_states@.take(i as int),
            decreases self.pause_states@.len() - i,
        {
            let name = self.pause_states[i].0.clone();
            let st = self.pause_states[i].1.duplicate();
            out.push((name, st));
            i = i + 1;
            proof { assert(out@ =~= self.pause_states@.take(i as int)); }
        }
        proof { assert(self.pause_states@.take(self.pause_states@.len() as int) =~= self.pause_states@); }
        out
    }

    /// Sets (or replaces) a category's pause.
    fn set_pause(&mut self, category: String, state: PauseState)
        requires
            old(self).wf(),
        ensures
            final(self).wf(),
            final(self).admin == old(self).admin,
            final(self).cb_stats == old(self).cb_stats,
            pause_for(final(self).pause_states@, category@) == Some(state),
            forall|c: Seq<char>| c != category@ ==> #[trigger] pause_for(final(self).pause_states@, c) == pause_for(old(self).pause_states@, c),
    {
        let ghost old_s = self.pause_states@;
        let ghost cat = category@;
        match self.find_category(&category) {
            Some(i) => {
                self.pause_states.set(i, (category, state));
                proof {
                    let s = self.pause_states@;
                    assert(s[i as int].0@ == cat);
                    assert(has_category(s, cat));
                    let k = category_index(s, cat);
                    if k != i as int { assert(s[k].0@ != s[i as int].0@); }
                    assert forall|c: Seq<char>| c != cat implies #[trigger] pause_for(s, c) == pause_for(old_s, c) by {
                        if has_category(s, c) {
                            let j = category_index(s, c);
                            assert(j != i as int);
                            assert(old_s[j].0@ == c);
                            assert(has_category(old_s, c));
                            let jo = category_index(old_s, c);
                            if jo != j { assert(old_s[jo].0@ != old_s[j].0@); }
                        }
                        if has_category(old_s, c) {
                            let jo = category_index(old_s, c);
                            assert(jo != i as int);
                            assert(s[jo].0@ == c);
                        }
                    }
                }
            },
            None => {
                self.pause_states.push((category, state));
                proof {
                    let s = self.pause_states@;
                    let n = old_s.len() as int;
                    assert(s[n].0@ == cat);
                    assert(has_category(s, cat));
                    let k = category_index(s, cat);
                    if k != n { assert(old_s[k].0@ == cat); assert(has_category(old_s, cat)); }
                    assert forall|c: Seq<char>| c != cat implies #[trigger] pause_for(s, c) == pause_for(old_s, c) by {
                        if has_category(s, c) {
                            let j = category_index(s, c);
                            assert(j != n);
                            assert(old_s[j].0@ == c);
                            assert(has_category(old_s, c));
                            let jo = category_index(old_s, c);
                            if jo != j { assert(old_s[jo].0@ != old_s[j].0@); }
                        }
                        if has_category(old_s, c) {
                            let jo = category_index(old_s, c);
                            assert(s[jo].0@ == c);
                        }
                    }
                }
            },
        }
    }

    /// Pauses a category (admin only) from `now`, for `duration` seconds
    /// when one is given.
    pub fn pause_category(&mut self, caller: AccountId, category: String, duration: Option<u64>, reason: String, now: u64) -> (r: Result<(), AutoTradeError>)
        requires
            old(self).wf(),
            duration matches Some(d) ==> now + d <= u64::MAX,
        ensures
            final(self).wf(),
            final(self).admin == old(self).admin,
            final(self).cb_stats == old(self).cb_stats,
            r is Ok <==> old(self).admin == Some(caller),
            r is Err ==> r == Err::<(), AutoTradeError>(AutoTradeError::Unauthorized) && final(self).pause_states@ == old(self).pause_states@,
            r is Ok ==> pause_for(final(self).pause_states@, category@) == Some(pause_record(now, duration, reason)),
            r is Ok ==> forall|c: Seq<char>| c != category@ ==> #[trigger] pause_for(final(self).pause_states@, c) == pause_for(old(self).pause_states@, c),
    {
        self.require_admin(caller)?;
        let auto_unpause_at = match duration {
            Some(d) => Some(now + d),
            None => None,
        };
        let state = PauseState { paused: true, paused_at: now, auto_unpause_at: auto_unpause_at, reason: reason };
        self.set_pause(category, state);
        Ok(())
    }

    /// Lifts a category's pause (admin only).
    pub fn unpause_category(&mut self, caller: AccountId, category: String) -> (r: Result<(), AutoTradeError>)
        requires
            old(self).wf(),
        ensures
            final(self).wf(),
            final(self).admin == old(self).admin,
            final(self).cb_stats == old(self).cb_stats,
            r is Ok <==> old(self).admin == Some(caller),
            r is Err ==> r == Err::<(), AutoTradeError>(AutoTradeError::Unauthorized) && final(self).pause_states@ == old(self).pause_states@,
            r is Ok ==> pause_for(final(self).pause_states@, category@) is None,
            r is Ok ==> forall|c: Seq<char>| c != category@ ==> #[trigger] pause_for(final(self).pause_states@, c) == pause_for(old(self).pause_states@, c),
    {
        self.require_admin(caller)?;
        let ghost old_s = self.pause_states@;
        let ghost cat = category@;
        match self.find_category(&category) {
            Some(i) => {
                self.pause_states.remove(i);
                proof {
                    let s = self.pause_states@;
                    assert(forall|j: int| 0 <= j < s.len() ==> #[trigger] s[j] == (if j < i { old_s[j] } else { old_s[j + 1] }));
                    assert forall|a: int, b: int| 0 <= a < s.len() && 0 <= b < s.len() && a != b implies
                        #[trigger] s[a].0@ != #[trigger] s[b].0@ by {
                        let oa = if a < i { a } else { a + 1 };
                        let ob = if b < i { b } else { b + 1 };
                        assert(old_s[oa].0@ != old_s[ob].0@);
                    }
                    if has_category(s, cat) {
                        let j = category_index(s, cat);
                        let oj = if j < i { j } else { j + 1 };
                        assert(old_s[oj].0@ == cat);
                        assert(old_s[i as int].0@ == cat);
                        assert(false);
                    }
                    assert forall|c: Seq<char>| c != cat implies #[trigger] pause_for(s, c) == pause_for(old_s, c) by {
                        if has_category(s, c) {
                            let j = category_index(s, c);
                            let oj = if j < i { j } else { j + 1 };
                            assert(old_s[oj].0@ == c);
                            assert(has_category(old_s, c));
                            let jo = category_index(old_s, c);
                            if jo != oj { assert(old_s[jo].0@ != old_s[oj].0@); }
                        }
                        if has_category(old_s, c) {
                            let jo = category_index(old_s, c);
                            assert(jo != i as int);
                            let nj = if jo < i { jo } else { jo - 1 };
                            assert(s[nj].0@ == c);
                        }
                    }
                }
            },
            None => {},
        }
        Ok(())
    }

    /// Whether a pause is in force at `now`.
    pub fn is_state_active(state: &PauseState, now: u64) -> (r: bool)
        ensures
            r == state_active(*state, now),
    {
        if !state.paused {
            return false;
        }
        match state.auto_unpause_at {
            Some(t) => now < t,
            None => true,
        }
    }

    /// Whether operations of a category are paused at `now`.
    pub fn is_paused(&self, category: &String, now: u64) -> (r: bool)
        requires
            self.wf(),
        ensures
            r == paused_at_time(self.pause_states@, category@, now),
    {
        let all = cat_all_name();
        match self.find_category(&all) {
            Some(i) => {
                if Self::is_state_active(&self.pause_states[i].1, now) {
                    return true;
                }
            },
            None => {},
        }
        match self.find_category(category) {
            Some(i) => Self::is_state_active(&self.pause_states[i].1, now),
            None => false,
        }
    }

    /// Counts one execution in the circuit breaker's statistics (resetting
    /// the window after ten minutes). When the breaker's thresholds trip,
    /// with `trip_reason`, every category is paused from `now`.
    pub fn update_cb_stats(&mut self, failed: bool, volume: i128, price: i128, now: u64, trip_reason: Option<String>)
        requires
            old(self).wf(),
            old(self).cb_stats.window_start + CB_WINDOW_SECONDS <= u64::MAX,
            old(self).cb_stats.attempts_window < u32::MAX,
            old(self).cb_stats.failures_window < u32::MAX,
            i128::MIN <= old(self).cb_stats.volume_1h + volume <= i128::MAX,
        ensures
            final(self).wf(),
            final(self).admin == old(self).admin,
            final(self).cb_stats == stats_after(old(self).cb_stats, failed, volume as int, price as int, now),
            trip_reason is None ==> final(self).pause_states@ == old(self).pause_states@,
            trip_reason matches Some(reason) ==> pause_for(final(self).pause_states@, cat_all()) == Some(PauseState {
                paused: true, paused_at: now, auto_unpause_at: None, reason: reason,
            }),
            trip_reason is Some ==> forall|c: Seq<char>| c != cat_all() ==> #[trigger] pause_for(final(self).pause_states@, c) == pause_for(old(self).pause_states@, c),
    {
        let mut stats = self.cb_stats;
        if now >= stats.window_start + CB_WINDOW_SECONDS {
            stats.attempts_window = 0;
            stats.failures_window = 0;
            stats.window_start = now;
        }
        stats.attempts_window = stats.attempts_window + 1;
        if failed {
            stats.failures_window = stats.failures_window + 1;
        }
        stats.volume_1h = stats.volume_1h + volume;
        if price > 0 {
            stats.last_price = price;
            stats.last_price_time = now;
        }
        self.cb_stats = stats;
        match trip_reason {
            Some(reason) => {
                let state = PauseState { paused: true, paused_at: now, auto_unpause_at: None, reason: reason };
                self.set_pause(cat_all_name(), state);
            },
            None => {},
        }
    }
}

/// A pause is in force from the moment it is set: for good without a
/// duration, else until the duration has passed.
pub proof fn law_pause_in_force(now: u64, duration: Option<u64>, reason: String, at: u64)
    requires
        duration matches Some(d) ==> now + d <= u64::MAX,
    ensures
        state_active(pause_record(now, duration, reason), at) <==> match duration {
            Some(d) => at < now + d,
            None => true,
        },
{
}

/// A pause of every category in force pauses each category, whatever its
/// own entry says.
pub proof fn law_pause_all_covers_every_category(states: Seq<(String, PauseState)>, category: Seq<char>, now: u64)
    requires
        pause_for(states, cat_all()) matches Some(a) && state_active(a, now),
    ensures
        paused_at_time(states, category, now),
{
}

}
