//! Oracle prices for trading: freshness, a circuit breaker that halts
//! trading while the oracle is unavailable and resets when it recovers, an
//! admin override, and per-pair whitelists of oracles that may push prices.
//! The oracle's own answer is fetched by the caller and handed in.
use vstd::prelude::*;
use crate::admin::AdminState;
use crate::errors::AutoTradeError;
use crate::math::{tdiv, div_toward_zero};
use crate::risk::RiskBook;
use crate::store::OrdMap;
use crate::AccountId;

verus! {

/// Maximum age, in seconds, of a usable price.
pub const MAX_PRICE_AGE_SECS: u64 = 300;

/// A price as an oracle reports it: `price / 10^decimals`, observed at
/// `timestamp`.
#[derive(Clone, Copy, Debug, PartialEq, Eq, Structural)]
pub struct OraclePrice {
    pub price: i128,
    pub decimals: u32,
    pub timestamp: u64,
}

/// Why no oracle price could be had.
#[derive(Clone, Copy, Debug, PartialEq, Eq, Structural)]
pub enum OracleError {
    NotConfigured,
    PriceNotFound,
    PriceStale,
    CallFailed,
}

/// The oracle circuit breaker.
#[derive(Clone, Copy, Debug, PartialEq, Eq, Structural)]
pub struct OracleCircuitBreakerState {
    /// Tripped: the oracle was found unavailable.
    pub triggered: bool,
    /// When it last tripped.
    pub triggered_at: u64,
    /// Trading allowed even while tripped.
    pub admin_override: bool,
}

impl OracleCircuitBreakerState {
    /// An untripped breaker as of `now`.
    pub fn default(now: u64) -> (r: Self)
        ensures
            r == (OracleCircuitBreakerState { triggered: false, triggered_at: now, admin_override: false }),
    {
        OracleCircuitBreakerState { triggered: false, triggered_at: now, admin_override: false }
    }
}

/// Whether a price is fresh at `now`: stamped, and at most five minutes old.
pub open spec fn is_fresh(p: OraclePrice, now: u64) -> bool {
    p.timestamp != 0 && !(now > p.timestamp && now - p.timestamp > MAX_PRICE_AGE_SECS)
}

/// `10^e`.
pub open spec fn pow10(e: nat) -> int
    decreases e,
{
    if e == 0 { 1 } else { 10 * pow10((e - 1) as nat) }
}

/// An oracle price in whole units: the reported price over `10^decimals`,
/// rounded toward zero.
pub open spec fn scaled_price(p: OraclePrice) -> int {
    tdiv(p.price as int, pow10(p.decimals as nat))
}

proof fn lemma_pow10_mono(a: nat, b: nat)
    requires
        a <= b,
    ensures
        1 <= pow10(a) <= pow10(b),
    decreases b,
{
    if b > a {
        lemma_pow10_mono(a, (b - 1) as nat);
    } else if a > 0 {
        lemma_pow10_mono((a - 1) as nat, (a - 1) as nat);
    }
}

proof fn lemma_pow10_bounds(e: nat)
    ensures
        pow10(e) >= 1,
        e <= 38 ==> pow10(e) <= 100_000_000_000_000_000_000_000_000_000_000_000_000,
{
    lemma_pow10_mono(0, e);
    if e <= 38 {
        lemma_pow10_mono(e, 38);
        reveal_with_fuel(pow10, 39);
        assert(pow10(38) == 100_000_000_000_000_000_000_000_000_000_000_000_000);
    }
}

/// Rejects a stale price.
pub fn validate_freshness(price: &OraclePrice, now: u64) -> (r: Result<(), OracleError>)
    ensures
        r is Ok <==> is_fresh(*price, now),
        r is Err ==> r == Err::<(), OracleError>(OracleError::PriceStale),
{
    if price.timestamp == 0 || now.saturating_sub(price.timestamp) > MAX_PRICE_AGE_SECS {
        return Err(OracleError::PriceStale);
    }
    Ok(())
}

/// A usable price from the test oracle: what it answered (`fetched`), if
/// that is fresh at `now`.
pub fn get_mock_oracle_price(fetched: Result<OraclePrice, OracleError>, now: u64) -> (r: Result<OraclePrice, OracleError>)
    ensures
        r == (match fetched {
            Ok(p) => if is_fresh(p, now) { Ok(p) } else { Err(OracleError::PriceStale) },
            Err(e) => Err(e),
        }),
{
    let price = fetched?;
    validate_freshness(&price, now)?;
    Ok(price)
}

/// An oracle price in whole units.
pub fn oracle_price_to_i128(op: &OraclePrice) -> (r: i128)
    requires
        op.decimals <= 38,
    ensures
        r == scaled_price(*op),
{
    let mut scale: i128 = 1;
    let mut i: u32 = 0;
    while i < op.decimals
        invariant
            i <= op.decimals <= 38,
            scale == pow10(i as nat),
        decreases op.decimals - i,
    {
        proof { lemma_pow10_bounds(i as nat + 1); }
        scale = scale * 10;
        i = i + 1;
    }
    proof { lemma_pow10_bounds(op.decimals as nat); }
    div_toward_zero(op.price, scale)
}

/// The oracle's address, the circuit breaker and the oracle whitelists.
pub struct OracleState {
    pub oracle_address: Option<AccountId>,
    pub cb: OracleCircuitBreakerState,
    pub whitelists: OrdMap<Vec<AccountId>>,
}

impl OracleState {
    /// The oracles whitelisted for a pair (empty when none).
    pub open spec fn whitelist_of(&self, asset_pair: u32) -> Seq<AccountId> {
        if self.whitelists@.contains_key(asset_pair as u128) { self.whitelists@[asset_pair as u128]@ } else { Seq::empty() }
    }

    pub fn new(now: u64) -> (r: Self)
        ensures
            r.oracle_address == None::<AccountId>,
            r.cb == (OracleCircuitBreakerState { triggered: false, triggered_at: now, admin_override: false }),
            r.whitelists@ == Map::<u128, Vec<AccountId>>::empty(),
    {
        OracleState { oracle_address: None, cb: OracleCircuitBreakerState::default(now), whitelists: OrdMap::new() }
    }

    pub fn get_cb_state(&self) -> (r: OracleCircuitBreakerState)
        ensures
            r == self.cb,
    {
        self.cb
    }

    /// Sets the oracle's address (admin only).
    pub fn set_oracle_address(&mut self, admin: &AdminState, caller: AccountId, oracle: AccountId) -> (r: Result<(), AutoTradeError>)
        ensures
            r is Ok <==> admin.admin == Some(caller),
            r is Err ==> r == Err::<(), AutoTradeError>(AutoTradeError::Unauthorized) && final(self).oracle_address == old(self).oracle_address,
            r is Ok ==> final(self).oracle_address == Some(oracle),
            final(self).cb == old(self).cb,
            final(self).whitelists@ == old(self).whitelists@,
    {
        admin.require_admin(caller)?;
        self.oracle_address = Some(oracle);
        Ok(())
    }

    pub fn get_oracle_address(&self) -> (r: Option<AccountId>)
        ensures
            r == self.oracle_address,
    {
        self.oracle_address
    }

    /// Turns the admin override of the circuit breaker on or off (admin
    /// only).
    pub fn override_oracle_circuit_breaker(&mut self, admin: &AdminState, caller: AccountId, enabled: bool) -> (r: Result<(), AutoTradeError>)
        ensures
            r is Ok <==> admin.admin == Some(caller),
            r is Err ==> r == Err::<(), AutoTradeError>(AutoTradeError::Unauthorized) && final(self).cb == old(self).cb,
            r is Ok ==> final(self).cb == (OracleCircuitBreakerState { admin_override: enabled, ..old(self).cb }),
            final(self).oracle_address == old(self).oracle_address,
            final(self).whitelists@ == old(self).whitelists@,
    {
        admin.require_admin(caller)?;
        self.cb.admin_override = enabled;
        Ok(())
    }

    /// A usable price from the configured oracle: `NotConfigured` without
    /// an address, otherwise what the oracle answered (`fetched`) if it is
    /// fresh at `now`.
    pub fn get_oracle_price(&self, fetched: Result<OraclePrice, OracleError>, now: u64) -> (r: Result<OraclePrice, OracleError>)
        ensures
            self.oracle_address is None ==> r == Err::<OraclePrice, OracleError>(OracleError::NotConfigured),
            self.oracle_address is Some ==> r == (match fetched {
                Ok(p) => if is_fresh(p, now) { Ok(p) } else { Err(OracleError::PriceStale) },
                Err(e) => Err(e),
            }),
    {
        if self.oracle_address.is_none() {
            return Err(OracleError::NotConfigured);
        }
        let price = fetched?;
        validate_freshness(&price, now)?;
        Ok(price)
    }

    /// A price through the circuit breaker: a usable price resets a tripped
    /// breaker; none trips it (stamped `now`) and gives `OracleUnavailable`.
    pub fn get_aggregated_price(&mut self, fetched: Result<OraclePrice, OracleError>, now: u64) -> (r: Result<OraclePrice, AutoTradeError>)
        ensures
            final(self).oracle_address == old(self).oracle_address,
            final(self).whitelists@ == old(self).whitelists@,
            final(self).cb.admin_override == old(self).cb.admin_override,
            match old(self).get_oracle_price_spec(fetched, now) {
                Ok(p) => r == Ok::<OraclePrice, AutoTradeError>(p) && !final(self).cb.triggered
                    && final(self).cb.triggered_at == old(self).cb.triggered_at,
                Err(_) => r == Err::<OraclePrice, AutoTradeError>(AutoTradeError::OracleUnavailable) && final(self).cb.triggered
                    && final(self).cb.triggered_at == (if old(self).cb.triggered { old(self).cb.triggered_at } else { now }),
            },
    {
        match self.get_oracle_price(fetched, now) {
            Ok(price) => {
                if self.cb.triggered {
                    self.cb.triggered = false;
                }
                Ok(price)
            },
            Err(_) => {
                if !self.cb.triggered {
                    self.cb.triggered = true;
                    self.cb.triggered_at = now;
                }
                Err(AutoTradeError::OracleUnavailable)
            },
        }
    }

    /// The outcome of `get_oracle_price`.
    pub open spec fn get_oracle_price_spec(&self, fetched: Result<OraclePrice, OracleError>, now: u64) -> Result<OraclePrice, OracleError> {
        if self.oracle_address is None {
            Err(OracleError::NotConfigured)
        } else {
            match fetched {
                Ok(p) => if is_fresh(p, now) { Ok(p) } else { Err(OracleError::PriceStale) },
                Err(e) => Err(e),
            }
        }
    }

    /// Whether trading may go ahead: yes under the admin override or while
    /// untripped; while tripped, only if the oracle answers again (`probe`),
    /// which resets the breaker.
    pub fn check_oracle_circuit_breaker(&mut self, probe: Result<OraclePrice, OracleError>, now: u64) -> (r: Result<(), AutoTradeError>)
        ensures
            final(self).oracle_address == old(self).oracle_address,
            final(self).whitelists@ == old(self).whitelists@,
            (old(self).cb.admin_override || !old(self).cb.triggered) ==> r is Ok && final(self).cb == old(self).cb,
            (!old(self).cb.admin_override && old(self).cb.triggered) ==> match old(self).get_oracle_price_spec(probe, now) {
                Ok(_) => r is Ok && final(self).cb == (OracleCircuitBreakerState { triggered: false, ..old(self).cb }),
                Err(_) => r == Err::<(), AutoTradeError>(AutoTradeError::OracleUnavailable) && final(self).cb == old(self).cb,
            },
    {
        if self.cb.admin_override {
            return Ok(());
        }
        if !self.cb.triggered {
            return Ok(());
        }
        match self.get_oracle_price(probe, now) {
            Ok(_) => {
                self.cb.triggered = false;
                Ok(())
            },
            Err(_) => Err(AutoTradeError::OracleUnavailable),
        }
    }

    /// The oracles whitelisted for a pair.
    pub fn get_oracle_whitelist(&self, asset_pair: u32) -> (r: Vec<AccountId>)
        ensures
            r@ == self.whitelist_of(asset_pair),
    {
        match self.whitelists.get(asset_pair as u128) {
            Some(l) => l.clone(),
            None => Vec::new(),
        }
    }

    /// Whitelists an oracle for a pair (admin only); a no-op if present.
    pub fn add_oracle(&mut self, admin: &AdminState, caller: AccountId, asset_pair: u32, oracle_addr: AccountId) -> (r: Result<(), AutoTradeError>)
        ensures
            r is Ok <==> admin.admin == Some(caller),
            r is Err ==> r == Err::<(), AutoTradeError>(AutoTradeError::Unauthorized),
            final(self).oracle_address == old(self).oracle_address,
            final(self).cb == old(self).cb,
            forall|p: u32| p != asset_pair ==> #[trigger] final(self).whitelist_of(p) == old(self).whitelist_of(p),
            final(self).whitelist_of(asset_pair) == (if r is Ok {
                with_oracle(old(self).whitelist_of(asset_pair), oracle_addr)
            } else {
                old(self).whitelist_of(asset_pair)
            }),
    {
        admin.require_admin(caller)?;
        let mut list = self.get_oracle_whitelist(asset_pair);
        let mut i: usize = 0;
        while i < list.len()
            invariant
                i <= list@.len(),
                admin.admin == Some(caller),
                list@ == old(self).whitelist_of(asset_pair),
                forall|j: int| 0 <= j < i ==> list@[j] != oracle_addr,
            decreases list@.len() - i,
        {
            if list[i] == oracle_addr {
                return Ok(());
            }
            i = i + 1;
        }
        list.push(oracle_addr);
        self.whitelists.insert(asset_pair as u128, list);
        proof {
            assert forall|p: u32| p != asset_pair implies #[trigger] self.whitelist_of(p) == old(self).whitelist_of(p) by {
                assert(p as u128 != asset_pair as u128);
            }
        }
        Ok(())
    }

    /// Removes an oracle from a pair's whitelist (admin only), unless the
    /// pair has at most one oracle.
    pub fn remove_oracle(&mut self, admin: &AdminState, caller: AccountId, asset_pair: u32, oracle_addr: AccountId) -> (r: Result<(), AutoTradeError>)
        ensures
            admin.admin != Some(caller) ==> r == Err::<(), AutoTradeError>(AutoTradeError::Unauthorized),
            (admin.admin == Some(caller) && old(self).whitelist_of(asset_pair).len() <= 1) ==>
                r == Err::<(), AutoTradeError>(AutoTradeError::LastOracleForPair),
            r is Ok <==> (admin.admin == Some(caller) && old(self).whitelist_of(asset_pair).len() > 1),
            final(self).oracle_address == old(self).oracle_address,
            final(self).cb == old(self).cb,
            forall|p: u32| p != asset_pair ==> #[trigger] final(self).whitelist_of(p) == old(self).whitelist_of(p),
            final(self).whitelist_of(asset_pair) == (if r is Ok {
                old(self).whitelist_of(asset_pair).filter(|a: AccountId| a != oracle_addr)
            } else {
                old(self).whitelist_of(asset_pair)
            }),
    {
        admin.require_admin(caller)?;
        let list = self.get_oracle_whitelist(asset_pair);
        if list.len() <= 1 {
            return Err(AutoTradeError::LastOracleForPair);
        }
        let mut new_list: Vec<AccountId> = Vec::new();
        let mut i: usize = 0;
        while i < list.len()
            invariant
                i <= list@.len(),
                new_list@ == list@.take(i as int).filter(|a: AccountId| a != oracle_addr),
            decreases list@.len() - i,
        {
            proof {
                assert(list@.take(i as int + 1).drop_last() =~= list@.take(i as int));
                reveal(Seq::filter);
            }
            let entry = list[i];
            if entry != oracle_addr {
                new_list.push(entry);
            }
            i = i + 1;
        }
        proof { assert(list@.take(list@.len() as int) =~= list@); }
        self.whitelists.insert(asset_pair as u128, new_list);
        proof {
            assert forall|p: u32| p != asset_pair implies #[trigger] self.whitelist_of(p) == old(self).whitelist_of(p) by {
                assert(p as u128 != asset_pair as u128);
            }
        }
        Ok(())
    }

    /// Succeeds only for an oracle whitelisted for the pair.
    pub fn require_whitelisted_oracle(&self, caller: AccountId, asset_pair: u32) -> (r: Result<(), AutoTradeError>)
        ensures
            r is Ok <==> self.whitelist_of(asset_pair).contains(caller),
            r is Err ==> r == Err::<(), AutoTradeError>(AutoTradeError::Unauthorized),
    {
        let list = self.get_oracle_whitelist(asset_pair);
        let mut i: usize = 0;
        while i < list.len()
            invariant
                i <= list@.len(),
                list@ == self.whitelist_of(asset_pair),
                forall|j: int| 0 <= j < i ==> list@[j] != caller,
            decreases list@.len() - i,
        {
            if list[i] == caller {
                return Ok(());
            }
            i = i + 1;
        }
        Err(AutoTradeError::Unauthorized)
    }

    /// A whitelisted oracle pushes a fresh price: it becomes the pair's
    /// current price and is appended to its price history.
    pub fn push_price_update(&self, risk: &mut RiskBook, caller: AccountId, asset_pair: u32, price: OraclePrice, now: u64) -> (r: Result<(), AutoTradeError>)
        requires
            old(risk).wf(),
            price.decimals <= 38,
            old(risk).history_count(asset_pair) < u32::MAX,
        ensures
            final(risk).wf(),
            !self.whitelist_of(asset_pair).contains(caller) ==> r == Err::<(), AutoTradeError>(AutoTradeError::Unauthorized),
            (self.whitelist_of(asset_pair).contains(caller) && !is_fresh(price, now)) ==>
                r == Err::<(), AutoTradeError>(AutoTradeError::OracleUnavailable),
            r is Ok <==> (self.whitelist_of(asset_pair).contains(caller) && is_fresh(price, now)),
            r is Err ==> final(risk).prices_spec() == old(risk).prices_spec()
                && final(risk).history_count(asset_pair) == old(risk).history_count(asset_pair)
                && final(risk).history_slots(asset_pair) == old(risk).history_slots(asset_pair),
            r is Ok ==> final(risk).prices_spec() == old(risk).prices_spec().insert(asset_pair as u128, scaled_price(price) as i128),
            r is Ok ==> final(risk).history_count(asset_pair) == old(risk).history_count(asset_pair) + 1,
            r is Ok ==> final(risk).history_slots(asset_pair) == (if old(risk).history_count(asset_pair) < 30 {
                old(risk).history_slots(asset_pair).push(scaled_price(price) as i128)
            } else {
                old(risk).history_slots(asset_pair).update(old(risk).history_count(asset_pair) % 30, scaled_price(price) as i128)
            }),
            forall|a: u32| a != asset_pair ==> #[trigger] final(risk).history_count(a) == old(risk).history_count(a),
            forall|a: u32| a != asset_pair ==> #[trigger] final(risk).history_slots(a) == old(risk).history_slots(a),
            forall|u: AccountId, a: u32| #[trigger] final(risk).position_spec(u, a) == old(risk).position_spec(u, a),
    {
        self.require_whitelisted_oracle(caller, asset_pair)?;
        if validate_freshness(&price, now).is_err() {
            return Err(AutoTradeError::OracleUnavailable);
        }
        let scaled = oracle_price_to_i128(&price);
        risk.set_asset_price(asset_pair, scaled);
        risk.record_price(asset_pair, scaled);
        Ok(())
    }
}

}

verus! {

/// The whitelist after adding `oracle`: unchanged if it is listed already.
pub open spec fn with_oracle(list: Seq<AccountId>, oracle: AccountId) -> Seq<AccountId> {
    if list.contains(oracle) { list } else { list.push(oracle) }
}

/// Adding an oracle lists it exactly once: a whitelist without repeats
/// stays without repeats and then holds the oracle.
pub proof fn law_add_oracle_keeps_whitelist_unique(list: Seq<AccountId>, oracle: AccountId)
    requires
        list.no_duplicates(),
    ensures
        with_oracle(list, oracle).no_duplicates(),
        with_oracle(list, oracle).contains(oracle),
{
    if !list.contains(oracle) {
        let after = list.push(oracle);
        assert(after[list.len() as int] == oracle);
        assert forall|i: int, j: int| 0 <= i < after.len() && 0 <= j < after.len() && i != j implies after[i] != after[j] by {
            if i < list.len() && j < list.len() {
                assert(after[i] == list[i] && after[j] == list[j]);
            } else if i < list.len() {
                assert(after[i] == list[i]);
                assert(list.contains(list[i]));
            } else if j < list.len() {
                assert(after[j] == list[j]);
                assert(list.contains(list[j]));
            }
        }
    }
}

/// A removal that goes through (the pair lists more than one oracle)
/// leaves the pair at least one oracle and no longer lists the removed one.
pub proof fn law_remove_oracle_keeps_one(list: Seq<AccountId>, oracle: AccountId)
    requires
        list.no_duplicates(),
        list.len() > 1,
    ensures
        list.filter(|a: AccountId| a != oracle).len() >= 1,
        !list.filter(|a: AccountId| a != oracle).contains(oracle),
{
    let pred = |a: AccountId| a != oracle;
    let kept = list.filter(pred);
    let i: int = if list[0] != oracle { 0 } else { 1 };
    assert(list[0] != list[1]);
    assert(pred(list[i]));
    list.lemma_filter_contains(pred, i);
    if kept.contains(oracle) {
        let j = choose|j: int| 0 <= j < kept.len() && kept[j] == oracle;
        list.lemma_filter_pred(pred, j);
    }
}

} // verus!
