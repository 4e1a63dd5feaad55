//! The contract's state and its trade entry point: the checks a trade must
//! pass, the execution and its recording.
use vstd::prelude::*;
use crate::admin::{AdminState, PauseState, paused_at_time, pause_for, cat_all, cat_trading, cat_trading_name, stats_after, CB_WINDOW_SECONDS};
use crate::auth::{AuthBook, AuthConfig, allows};
use crate::errors::AutoTradeError;
use crate::math::in_i128;
use crate::oracle::{OracleState, OracleCircuitBreakerState, OraclePrice, OracleError};
use crate::rate_limit::{RateLimiter, UserTransferHistory, default_limits, sums_fit};
use crate::risk::{RiskBook, Position};
use crate::smart_routing::drawn;
use crate::smart_routing::{RoutingBook, ExecutionResult, LiquidityVenue, VenueLiquidity, quotes_of, plan_spec, plan_fits, draw_fits, executable, execute_best_route};
use crate::storage::{SignalBook, Signal};
use crate::store::OrdMap;
use crate::AccountId;

verus! {

/// How a trade is executed.
#[derive(Clone, Copy, Debug, PartialEq, Eq, Structural)]
pub enum OrderType {
    Market,
    Limit,
}

/// How much of a trade was filled.
#[derive(Clone, Copy, Debug, PartialEq, Eq, Structural)]
pub enum TradeStatus {
    Pending,
    PartiallyFilled,
    Filled,
    Failed,
}

/// A trade as recorded.
#[derive(Clone, Copy, Debug, PartialEq, Eq, Structural)]
pub struct Trade {
    pub signal_id: u64,
    pub user: AccountId,
    pub requested_amount: i128,
    pub executed_amount: i128,
    pub executed_price: i128,
    pub timestamp: u64,
    pub status: TradeStatus,
}

/// What a trade request returns.
#[derive(Clone, Copy, Debug, PartialEq, Eq, Structural)]
pub struct TradeResult {
    pub trade: Trade,
}

/// Storage figures of the contract.
#[derive(Clone, Copy, Debug, PartialEq, Eq, Structural)]
pub struct AutoTradeStorageStats {
    pub total_signals: u32,
    pub total_positions: u32,
    pub total_providers: u32,
    /// Estimated rent in stroops.
    pub estimated_rent_xlm: i128,
}

/// Largest slippage accepted on a routed market order, in basis points.
pub const MARKET_ROUTE_MAX_SLIPPAGE_BPS: u32 = 500;

/// The status of a trade that filled `executed` of `requested`.
pub open spec fn status_of(executed: int, requested: int) -> TradeStatus {
    if executed == 0 {
        TradeStatus::Failed
    } else if executed < requested {
        TradeStatus::PartiallyFilled
    } else {
        TradeStatus::Filled
    }
}

/// The trade recorded for an execution.
pub open spec fn trade_of(signal_id: u64, user: AccountId, amount: i128, x: ExecutionResult, now: u64) -> Trade {
    Trade {
        signal_id: signal_id,
        user: user,
        requested_amount: amount,
        executed_amount: x.executed_amount,
        executed_price: x.executed_price,
        timestamp: now,
        status: status_of(x.executed_amount as int, amount as int),
    }
}

/// The key of a user's trade on a signal.
pub open spec fn trade_key(user: AccountId, signal_id: u64) -> u128 {
    (user as int * 0x1_0000_0000_0000_0000 + signal_id as int) as u128
}

/// What routing a market order over the signal's venues gives.
pub open spec fn routed_outcome(book: RoutingBook, signal: Signal, amount: i128) -> Result<ExecutionResult, AutoTradeError> {
    let q = quotes_of(&book, signal.signal_id);
    let fail = if book.fail_venue@.contains_key(signal.signal_id as u128) { Some(book.fail_venue@[signal.signal_id as u128]) } else { None };
    match plan_spec(q, signal.price as int, amount as int, MARKET_ROUTE_MAX_SLIPPAGE_BPS) {
        Err(e) => Err(e),
        Ok((segs, t)) => if !executable(q, segs, fail) {
            Err(AutoTradeError::SystemError)
        } else {
            Ok(ExecutionResult { executed_amount: t.0 as i128, executed_price: t.1 as i128 })
        },
    }
}

/// The execution of an order: a market order is routed over the signal's
/// venues and falls back to the exchange's market order (`market_fill`)
/// when no route exists; a limit order is the exchange's (`limit_fill`).
pub open spec fn execution_outcome(book: RoutingBook, signal: Signal, order_type: OrderType, amount: i128,
    market_fill: Result<ExecutionResult, AutoTradeError>, limit_fill: Result<ExecutionResult, AutoTradeError>) -> Result<ExecutionResult, AutoTradeError> {
    match order_type {
        OrderType::Market => match routed_outcome(book, signal, amount) {
            Ok(x) => Ok(x),
            Err(e) => if e == AutoTradeError::RoutingPlanNotFound { market_fill } else { Err(e) },
        },
        OrderType::Limit => limit_fill,
    }
}

/// The contract's state.
pub struct AutoTradeContract {
    pub admin: AdminState,
    pub oracle: OracleState,
    pub signals: SignalBook,
    pub auth: AuthBook,
    pub rate: RateLimiter,
    pub risk: RiskBook,
    pub routing: RoutingBook,
    pub trades: OrdMap<Trade>,
}

impl AutoTradeContract {
    pub open spec fn wf(&self) -> bool {
        &&& self.admin.wf()
        &&& self.risk.wf()
    }

    /// A contract with no admin, signals, authorizations, positions,
    /// venues or trades, default rate limits and an untripped oracle
    /// breaker as of `now`.
    pub fn new(now: u64) -> (c: Self)
        ensures
            c.wf(),
            c.admin.admin == None::<AccountId>,
            c.admin.pause_states@ == Seq::<(String, PauseState)>::empty(),
            c.oracle.oracle_address == None::<AccountId>,
            c.oracle.cb == (OracleCircuitBreakerState { triggered: false, triggered_at: now, admin_override: false }),
            c.signals.signals@ == Map::<u128, Signal>::empty(),
            c.auth.configs@ == Map::<u128, AuthConfig>::empty(),
            c.rate.limits == default_limits(),
            c.rate.whitelist@ == Seq::<AccountId>::empty(),
            c.rate.histories@ == Map::<u128, UserTransferHistory>::empty(),
            c.rate.global_hourly_count == 0,
            c.routing.venues@ == Map::<u128, Vec<VenueLiquidity>>::empty(),
            c.routing.fail_venue@ == Map::<u128, (LiquidityVenue, u32)>::empty(),
            c.trades@ == Map::<u128, Trade>::empty(),
            forall|u: AccountId, a: u32| #[trigger] c.risk.position_spec(u, a) == None::<Position>,
            c.risk.prices_spec() == Map::<u128, i128>::empty(),
    {
        AutoTradeContract {
            admin: AdminState::new(),
            oracle: OracleState::new(now),
            signals: SignalBook::new(),
            auth: AuthBook::new(),
            rate: RateLimiter::new(),
            risk: RiskBook::new(),
            routing: RoutingBook::new(),
            trades: OrdMap::new(),
        }
    }

    /// Whether the oracle circuit breaker lets trading through, given the
    /// oracle's answer `probe`.
    pub open spec fn oracle_passes(&self, probe: Result<OraclePrice, OracleError>, now: u64) -> bool {
        self.oracle.cb.admin_override || !self.oracle.cb.triggered || self.oracle.get_oracle_price_spec(probe, now) is Ok
    }

    /// The checks a trade request must pass, in order; the signal when all
    /// pass.
    pub open spec fn gate(&self, user: AccountId, signal_id: u64, amount: i128, now: u64,
        probe: Result<OraclePrice, OracleError>, has_balance: bool) -> Result<Signal, AutoTradeError> {
        let signal = self.signals.signals@[signal_id as u128];
        if paused_at_time(self.admin.pause_states@, cat_trading(), now) {
            Err(AutoTradeError::TradingPaused)
        } else if !self.oracle_passes(probe, now) {
            Err(AutoTradeError::OracleUnavailable)
        } else if amount <= 0 {
            Err(AutoTradeError::InvalidAmount)
        } else if !self.signals.signals@.contains_key(signal_id as u128) {
            Err(AutoTradeError::SignalNotFound)
        } else if now > signal.expiry {
            Err(AutoTradeError::SignalExpired)
        } else if !(self.auth.configs@.contains_key(user as u128) && allows(self.auth.configs@[user as u128], amount as int, now)) {
            Err(AutoTradeError::Unauthorized)
        } else {
            match self.rate.rate_check(user, amount, now) {
                Err(e) => Err(e),
                Ok(_) => if !has_balance { Err(AutoTradeError::InsufficientBalance) } else { Ok(signal) },
            }
        }
    }
}


/// The arithmetic of recording an execution stays within its types.
pub open spec fn record_fits(c: AutoTradeContract, user: AccountId, signal: Signal, x: ExecutionResult) -> bool {
    let held = match c.risk.position_spec(user, signal.base_asset) { Some(p) => p.amount as int, None => 0 };
    &&& c.admin.cb_stats.window_start + CB_WINDOW_SECONDS <= u64::MAX
    &&& c.admin.cb_stats.attempts_window < u32::MAX
    &&& c.admin.cb_stats.failures_window < u32::MAX
    &&& in_i128(c.admin.cb_stats.volume_1h + x.executed_amount)
    &&& (x.executed_amount > 0 ==> in_i128(held + x.executed_amount))
}

/// Nothing but the oracle circuit breaker differs between `a` and `b`: no
/// trade, position, price, statistic or pause was written.
pub open spec fn only_breaker_moved(a: AutoTradeContract, b: AutoTradeContract) -> bool {
    &&& b.admin == a.admin
    &&& b.signals == a.signals
    &&& b.auth == a.auth
    &&& b.rate == a.rate
    &&& b.risk == a.risk
    &&& b.routing == a.routing
    &&& b.trades == a.trades
    &&& b.oracle.oracle_address == a.oracle.oracle_address
    &&& b.oracle.whitelists@ == a.oracle.whitelists@
}

/// The positions, risk settings and price histories of `b` are those of `a`.
pub open spec fn same_holdings(a: RiskBook, b: RiskBook) -> bool {
    &&& forall|u: AccountId| #[trigger] b.user_positions(u) == a.user_positions(u)
    &&& forall|u: AccountId| #[trigger] b.config_of(u) == a.config_of(u)
    &&& forall|k: u32| #[trigger] b.history_count(k) == a.history_count(k)
    &&& forall|k: u32| #[trigger] b.history_slots(k) == a.history_slots(k)
}

/// Between `a` and `b` only the oracle breaker moved and the signal's price
/// became its asset's current price: no trade, position or statistic was
/// written.
pub open spec fn only_price_recorded(a: AutoTradeContract, b: AutoTradeContract, signal: Signal) -> bool {
    &&& b.admin == a.admin
    &&& b.signals == a.signals
    &&& b.auth == a.auth
    &&& b.rate == a.rate
    &&& b.trades == a.trades
    &&& b.oracle.oracle_address == a.oracle.oracle_address
    &&& b.oracle.whitelists@ == a.oracle.whitelists@
    &&& b.risk.prices_spec() == a.risk.prices_spec().insert(signal.base_asset as u128, signal.price)
    &&& same_holdings(a.risk, b.risk)
    &&& b.routing.venues@ == a.routing.venues@
    &&& b.routing.fail_venue@ == a.routing.fail_venue@
}

/// The user's position in an asset after a fill of `x`: the filled amount
/// is added, the entry price becomes the executed price and the high is kept
/// (the executed price for a new position).
pub open spec fn filled_position(before: Option<Position>, x: ExecutionResult) -> Position {
    Position {
        amount: ((match before { Some(p) => p.amount as int, None => 0 }) + x.executed_amount) as i128,
        entry_price: x.executed_price,
        high_price: match before { Some(p) => p.high_price, None => x.executed_price },
    }
}

/// What routing leaves of the venues: a routed market order draws its plan's
/// segments from the signal's quotes; nothing else changes them.
pub open spec fn routing_effect(before: RoutingBook, after: RoutingBook, signal: Signal, order_type: OrderType, amount: i128) -> bool {
    let q = quotes_of(&before, signal.signal_id);
    let k = signal.signal_id as u128;
    &&& after.fail_venue@ == before.fail_venue@
    &&& if order_type == OrderType::Market && routed_outcome(before, signal, amount) is Ok {
        match plan_spec(q, signal.price as int, amount as int, MARKET_ROUTE_MAX_SLIPPAGE_BPS) {
            Ok((segs, t)) => if segs.len() > 0 {
                &&& after.venues@ == before.venues@.insert(k, after.venues@[k])
                &&& quotes_of(&after, signal.signal_id) == drawn(q, segs, segs.len() as int)
            } else {
                after.venues@ == before.venues@
            },
            Err(e) => after.venues@ == before.venues@,
        }
    } else {
        after.venues@ == before.venues@
    }
}

/// What recording a fill `x` of the user's trade on `signal` does to the
/// rest of the state: the user's position, the breaker statistics and the
/// pauses a trip brings.
pub open spec fn fill_recorded(a: AutoTradeContract, b: AutoTradeContract, user: AccountId, signal: Signal, amount: i128,
    x: ExecutionResult, now: u64, trip_reason: Option<String>) -> bool {
    &&& b.admin.admin == a.admin.admin
    &&& b.admin.cb_stats == stats_after(a.admin.cb_stats, status_of(x.executed_amount as int, amount as int) == TradeStatus::Failed,
            x.executed_amount as int, x.executed_price as int, now)
    &&& (trip_reason is None ==> b.admin.pause_states@ == a.admin.pause_states@)
    &&& (trip_reason matches Some(reason) ==> pause_for(b.admin.pause_states@, cat_all()) == Some(PauseState {
            paused: true, paused_at: now, auto_unpause_at: None, reason: reason,
        }))
    &&& (trip_reason is Some ==> forall|c: Seq<char>| c != cat_all() ==> #[trigger] pause_for(b.admin.pause_states@, c) == pause_for(a.admin.pause_states@, c))
    &&& (x.executed_amount > 0 ==> b.risk.user_positions(user) == a.risk.user_positions(user).insert(signal.base_asset as u128,
            filled_position(a.risk.position_spec(user, signal.base_asset), x)))
    &&& (x.executed_amount <= 0 ==> b.risk.user_positions(user) == a.risk.user_positions(user))
    &&& forall|u: AccountId| u != user ==> #[trigger] b.risk.user_positions(u) == a.risk.user_positions(u)
    &&& forall|u: AccountId| #[trigger] b.risk.config_of(u) == a.risk.config_of(u)
    &&& forall|k: u32| #[trigger] b.risk.history_count(k) == a.risk.history_count(k)
    &&& forall|k: u32| #[trigger] b.risk.history_slots(k) == a.risk.history_slots(k)
    &&& b.signals == a.signals
    &&& b.auth == a.auth
    &&& b.rate == a.rate
    &&& b.oracle.oracle_address == a.oracle.oracle_address
    &&& b.oracle.whitelists@ == a.oracle.whitelists@
}

impl AutoTradeContract {
    /// Runs the checks of a trade request; on the way, the oracle circuit
    /// breaker may reset (when the oracle answers again).
    fn check_trade(&mut self, user: AccountId, signal_id: u64, amount: i128, now: u64,
        probe: Result<OraclePrice, OracleError>, has_balance: bool) -> (r: Result<Signal, AutoTradeError>)
        requires
            old(self).wf(),
            old(self).rate.reaches_volume_checks(user, amount, now) ==> {
                &&& sums_fit(old(self).rate.live_hour(user, now), amount as int)
                &&& sums_fit(old(self).rate.live_day(user, now), amount as int)
            },
        ensures
            r == old(self).gate(user, signal_id, amount, now, probe, has_balance),
            final(self).wf(),
            only_breaker_moved(*old(self), *final(self)),
            paused_at_time(old(self).admin.pause_states@, cat_trading(), now) ==> final(self).oracle == old(self).oracle,
    {
        let trading = cat_trading_name();
        if self.admin.is_paused(&trading, now) {
            return Err(AutoTradeError::TradingPaused);
        }
        self.oracle.check_oracle_circuit_breaker(probe, now)?;
        if amount <= 0 {
            return Err(AutoTradeError::InvalidAmount);
        }
        let signal = match self.signals.get_signal(signal_id) {
            Some(s) => s,
            None => return Err(AutoTradeError::SignalNotFound),
        };
        if now > signal.expiry {
            return Err(AutoTradeError::SignalExpired);
        }
        if !self.auth.is_authorized(user, amount, now) {
            return Err(AutoTradeError::Unauthorized);
        }
        self.rate.check_rate_limits(user, amount, now)?;
        if !has_balance {
            return Err(AutoTradeError::InsufficientBalance);
        }
        Ok(signal)
    }

    /// Records an execution: counts it in the circuit breaker's statistics,
    /// adds a filled amount to the user's position at the executed price and
    /// stores the trade.
    fn record_execution(&mut self, user: AccountId, signal_id: u64, signal: Signal, amount: i128,
        x: ExecutionResult, now: u64, trip_reason: Option<String>) -> (r: TradeResult)
        requires
            old(self).wf(),
            record_fits(*old(self), user, signal, x),
        ensures
            final(self).wf(),
            r == (TradeResult { trade: trade_of(signal_id, user, amount, x, now) }),
            final(self).trades@ == old(self).trades@.insert(trade_key(user, signal_id), r.trade),
            final(self).admin.cb_stats == stats_after(old(self).admin.cb_stats,
                status_of(x.executed_amount as int, amount as int) == TradeStatus::Failed,
                x.executed_amount as int, x.executed_price as int, now),
            final(self).admin.admin == old(self).admin.admin,
            fill_recorded(*old(self), *final(self), user, signal, amount, x, now, trip_reason),
            x.executed_amount > 0 ==> final(self).risk.position_spec(user, signal.base_asset) == Some(Position {
                amount: ((match old(self).risk.position_spec(user, signal.base_asset) { Some(p) => p.amount as int, None => 0 })
                    + x.executed_amount) as i128,
                entry_price: x.executed_price,
                high_price: match old(self).risk.position_spec(user, signal.base_asset) { Some(p) => p.high_price, None => x.executed_price },
            }),
            x.executed_amount <= 0 ==> final(self).risk == old(self).risk,
            forall|u: AccountId, a: u32| (u != user || a != signal.base_asset) ==>
                #[trigger] final(self).risk.position_spec(u, a) == old(self).risk.position_spec(u, a),
            final(self).risk.prices_spec() == old(self).risk.prices_spec(),
            final(self).oracle == old(self).oracle,
            final(self).signals == old(self).signals,
            final(self).auth == old(self).auth,
            final(self).rate == old(self).rate,
            final(self).routing == old(self).routing,
            final(self).risk.prices_spec() == old(self).risk.prices_spec(),
    {
        let status = if x.executed_amount == 0 {
            TradeStatus::Failed
        } else if x.executed_amount < amount {
            TradeStatus::PartiallyFilled
        } else {
            TradeStatus::Filled
        };
        self.admin.update_cb_stats(status == TradeStatus::Failed, x.executed_amount, x.executed_price, now, trip_reason);
        let trade = Trade {
            signal_id: signal_id,
            user: user,
            requested_amount: amount,
            executed_amount: x.executed_amount,
            executed_price: x.executed_price,
            timestamp: now,
            status: status,
        };
        if x.executed_amount > 0 {
            let current_amount: i128 = match self.risk.get_position(user, signal.base_asset) {
                Some(p) => p.amount,
                None => 0,
            };
            let new_amount = current_amount + x.executed_amount;
            self.risk.update_position(user, signal.base_asset, new_amount, x.executed_price);
        }
        let key: u128 = (user as u128) * 0x1_0000_0000_0000_0000u128 + signal_id as u128;
        self.trades.insert(key, trade);
        TradeResult { trade: trade }
    }

    /// Executes a trade on a signal for a user.
    ///
    /// The request must pass, in order: the trading pause, the oracle circuit
    /// breaker (with the oracle's answer `probe`), a positive amount, a known
    /// and unexpired signal, the user's authorization, the rate limits, and
    /// the user's balance (`has_balance`, as the exchange reports it). The
    /// signal's price becomes the asset's current price, and the risk checks
    /// (`risk_check`) must pass. A market order is routed over the signal's
    /// venues and falls back to the exchange (`market_fill`) when no route
    /// exists; a limit order goes to the exchange (`limit_fill`). The trade
    /// is then recorded (see `trip_reason` in the admin state's
    /// `update_cb_stats`).
    pub fn execute_trade(&mut self, user: AccountId, signal_id: u64, order_type: OrderType, amount: i128, now: u64,
        probe: Result<OraclePrice, OracleError>, has_balance: bool, risk_check: Result<bool, AutoTradeError>,
        market_fill: Result<ExecutionResult, AutoTradeError>, limit_fill: Result<ExecutionResult, AutoTradeError>,
        trip_reason: Option<String>) -> (r: Result<TradeResult, AutoTradeError>)
        requires
            old(self).wf(),
            old(self).rate.reaches_volume_checks(user, amount, now) ==> {
                &&& sums_fit(old(self).rate.live_hour(user, now), amount as int)
                &&& sums_fit(old(self).rate.live_day(user, now), amount as int)
            },
            old(self).gate(user, signal_id, amount, now, probe, has_balance) matches Ok(signal) ==> {
                let q = quotes_of(&old(self).routing, signal.signal_id);
                &&& order_type == OrderType::Market ==> plan_fits(q, amount as int, signal.price as int, MARKET_ROUTE_MAX_SLIPPAGE_BPS)
                &&& order_type == OrderType::Market ==> (plan_spec(q, signal.price as int, amount as int, MARKET_ROUTE_MAX_SLIPPAGE_BPS)
                    matches Ok((segs, t)) ==> draw_fits(q, segs))
                &&& risk_check is Ok ==> (execution_outcome(old(self).routing, signal, order_type, amount, market_fill, limit_fill)
                    matches Ok(x) ==> record_fits(*old(self), user, signal, x))
            },
        ensures
            final(self).wf(),
            match old(self).gate(user, signal_id, amount, now, probe, has_balance) {
                Err(e) => {
                    &&& r == Err::<TradeResult, AutoTradeError>(e)
                    &&& only_breaker_moved(*old(self), *final(self))
                    &&& (e == AutoTradeError::TradingPaused ==> final(self).oracle == old(self).oracle)
                },
                Ok(signal) => match risk_check {
                    Err(e) => r == Err::<TradeResult, AutoTradeError>(e) && only_price_recorded(*old(self), *final(self), signal),
                    Ok(_) => match execution_outcome(old(self).routing, signal, order_type, amount, market_fill, limit_fill) {
                        Err(e) => r == Err::<TradeResult, AutoTradeError>(e) && only_price_recorded(*old(self), *final(self), signal),
                        Ok(x) => {
                            &&& r == Ok::<TradeResult, AutoTradeError>(TradeResult { trade: trade_of(signal_id, user, amount, x, now) })
                            &&& final(self).trades@ == old(self).trades@.insert(trade_key(user, signal_id), trade_of(signal_id, user, amount, x, now))
                            &&& final(self).risk.prices_spec() == old(self).risk.prices_spec().insert(signal.base_asset as u128, signal.price)
                            &&& fill_recorded(*old(self), *final(self), user, signal, amount, x, now, trip_reason)
                            &&& routing_effect(old(self).routing, final(self).routing, signal, order_type, amount)
                        },
                    },
                },
            },
    {
        let signal = self.check_trade(user, signal_id, amount, now, probe, has_balance)?;
        let ghost routing0 = self.routing;
        self.risk.set_asset_price(signal.base_asset, signal.price);
        risk_check?;
        let execution = match order_type {
            OrderType::Market => {
                match execute_best_route(&mut self.routing, &signal, amount, MARKET_ROUTE_MAX_SLIPPAGE_BPS) {
                    Ok(result) => result,
                    Err(AutoTradeError::RoutingPlanNotFound) => market_fill?,
                    Err(err) => return Err(err),
                }
            },
            OrderType::Limit => limit_fill?,
        };
        proof {
            assert(execution_outcome(routing0, signal, order_type, amount, market_fill, limit_fill) == Ok::<ExecutionResult, AutoTradeError>(execution));
        }
        let result = self.record_execution(user, signal_id, signal, amount, execution, now, trip_reason);
        Ok(result)
    }

    /// A user's recorded trade on a signal.
    pub fn get_trade(&self, user: AccountId, signal_id: u64) -> (r: Option<Trade>)
        ensures
            r == (if self.trades@.contains_key(trade_key(user, signal_id)) { Some(self.trades@[trade_key(user, signal_id)]) } else { None }),
    {
        let key: u128 = (user as u128) * 0x1_0000_0000_0000_0000u128 + signal_id as u128;
        match self.trades.get(key) {
            Some(t) => Some(*t),
            None => None,
        }
    }
}


impl AutoTradeContract {
    /// Storage figures: signal 0 stands for the signals stored (1 when it
    /// exists), positions and providers are not enumerable and count 0, and
    /// the rent estimate is 128 bytes at 100 stroops per byte per entry.
    pub fn get_storage_stats(&self) -> (r: AutoTradeStorageStats)
        ensures
            r.total_signals == (if self.signals.signals@.contains_key(0) { 1u32 } else { 0u32 }),
            r.total_positions == 0,
            r.total_providers == 0,
            r.estimated_rent_xlm == (r.total_signals + r.total_positions + r.total_providers) * 128 * 100,
    {
        let total_signals: u32 = match self.signals.get_signal(0) {
            Some(_) => 1,
            None => 0,
        };
        let total_positions: u32 = 0;
        let total_providers: u32 = 0;
        let entry_count = (total_signals + total_positions + total_providers) as i128;
        let estimated_rent_xlm = entry_count * 128 * 100;
        AutoTradeStorageStats { total_signals, total_positions, total_providers, estimated_rent_xlm }
    }

    /// Records a price for an asset: appended to its history and made its
    /// current price.
    pub fn record_asset_price(&mut self, asset_id: u32, price: i128)
        requires
            old(self).wf(),
            old(self).risk.history_count(asset_id) < u32::MAX,
        ensures
            final(self).wf(),
            final(self).risk.prices_spec() == old(self).risk.prices_spec().insert(asset_id as u128, price),
            final(self).risk.history_count(asset_id) == old(self).risk.history_count(asset_id) + 1,
            final(self).risk.history_slots(asset_id) == (if old(self).risk.history_count(asset_id) < 30 {
                old(self).risk.history_slots(asset_id).push(price)
            } else {
                old(self).risk.history_slots(asset_id).update(old(self).risk.history_count(asset_id) % 30, price)
            }),
    {
        self.risk.record_price(asset_id, price);
        self.risk.set_asset_price(asset_id, price);
    }
}

}
