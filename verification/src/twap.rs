//! Time-weighted average price orders: a total split into equal segments
//! executed at regular intervals.
use vstd::prelude::*;
use crate::errors::AutoTradeError;
use crate::math::{in_i128, tdiv, div_toward_zero};
use crate::store::OrdMap;
use crate::conditional::{remove_first, lemma_remove_first_at, lemma_remove_first_absent};
use crate::AccountId;

verus! {

#[derive(Clone, Copy, Debug, PartialEq, Eq, Structural)]
pub enum TWAPStatus {
    Active,
    Complete,
    Cancelled,
    Paused,
}

/// A traded pair of assets, by symbol.
#[derive(Debug)]
pub struct AssetPair {
    pub base: String,
    pub quote: String,
}

impl AssetPair {
    pub fn duplicate(&self) -> (r: Self)
        ensures
            r == *self,
    {
        AssetPair { base: self.base.clone(), quote: self.quote.clone() }
    }
}

/// A TWAP order.
#[derive(Debug)]
pub struct TWAPOrder {
    pub id: u64,
    pub user: AccountId,
    pub pair: AssetPair,
    pub total_amount: i128,
    pub duration_seconds: u64,
    pub interval_seconds: u64,
    pub start_time: u64,
    pub segments_executed: u32,
    pub total_segments: u32,
    pub amount_per_segment: i128,
    pub filled_amount: i128,
    /// Sum of price times amount over the fills.
    pub weighted_price: i128,
    pub status: TWAPStatus,
}

impl TWAPOrder {
    pub fn duplicate(&self) -> (r: Self)
        ensures
            r == *self,
    {
        TWAPOrder {
            id: self.id, user: self.user, pair: self.pair.duplicate(), total_amount: self.total_amount,
            duration_seconds: self.duration_seconds, interval_seconds: self.interval_seconds,
            start_time: self.start_time, segments_executed: self.segments_executed,
            total_segments: self.total_segments, amount_per_segment: self.amount_per_segment,
            filled_amount: self.filled_amount, weighted_price: self.weighted_price, status: self.status,
        }
    }
}

/// What a cancelled order had done.
#[derive(Clone, Copy, Debug, PartialEq, Eq, Structural)]
pub struct CancellationSummary {
    pub filled_amount: i128,
    pub remaining_amount: i128,
    pub avg_price: i128,
    pub segments_executed: u32,
}

/// The book's persistent slots.
#[derive(Clone, Copy, Debug, PartialEq, Eq, Structural)]
pub enum TWAPStorageKey {
    Counter,
    Order(u64),
    ActiveOrders,
}

/// The price segments are filled at.
pub const MARKET_PRICE: i128 = 100_000;
/// The current volatility used to adjust orders.
pub const CURRENT_VOLATILITY: u32 = 1500;
/// The baseline volatility.
pub const BASELINE_VOLATILITY: u32 = 1000;

/// The price a segment of a pair is filled at.
pub fn get_market_price(_pair: &AssetPair) -> (r: Result<i128, AutoTradeError>)
    ensures
        r == Ok::<i128, AutoTradeError>(MARKET_PRICE),
{
    Ok(MARKET_PRICE)
}

/// The current volatility of a pair.
pub fn calculate_volatility(_pair: &AssetPair, _period: u32) -> (r: Result<u32, AutoTradeError>)
    ensures
        r == Ok::<u32, AutoTradeError>(CURRENT_VOLATILITY),
{
    Ok(CURRENT_VOLATILITY)
}

/// The baseline volatility of a pair.
pub fn get_baseline_volatility(_pair: &AssetPair) -> (r: Result<u32, AutoTradeError>)
    ensures
        r == Ok::<u32, AutoTradeError>(BASELINE_VOLATILITY),
{
    Ok(BASELINE_VOLATILITY)
}

/// The segments an active order is due to have executed at `now`.
pub open spec fn due_segments(o: TWAPOrder, now: u64) -> int {
    let elapsed = if now > o.start_time { now - o.start_time } else { 0 };
    let interval = if o.interval_seconds > 1 { o.interval_seconds as int } else { 1 };
    let expected = (elapsed / interval) as u32;
    let cap = if expected < o.total_segments { expected as int } else { o.total_segments as int };
    if cap > o.segments_executed { cap - o.segments_executed } else { 0 }
}

/// The order after `k` more segments, each filling `amount_per_segment` at
/// the market price.
pub open spec fn progressed(o: TWAPOrder, k: int) -> TWAPOrder {
    TWAPOrder {
        segments_executed: (o.segments_executed + k) as u32,
        filled_amount: (o.filled_amount + k * o.amount_per_segment) as i128,
        weighted_price: (o.weighted_price + k * (MARKET_PRICE * o.amount_per_segment)) as i128,
        ..o
    }
}

/// The order after `k` more segments, completed once all are done.
pub open spec fn advanced(o: TWAPOrder, k: int) -> TWAPOrder {
    let p = progressed(o, k);
    TWAPOrder { status: if p.segments_executed >= p.total_segments { TWAPStatus::Complete } else { p.status }, ..p }
}

/// The active list after storing an order of status `status`: an active
/// order is added if missing; a completed or cancelled one is removed.
pub open spec fn after_store(active: Seq<u64>, id: u64, status: TWAPStatus) -> Seq<u64> {
    if status == TWAPStatus::Active {
        if active.contains(id) { active } else { active.push(id) }
    } else if status != TWAPStatus::Paused {
        remove_first(active, id)
    } else {
        active
    }
}

/// One order of the active list processed at `now`: an active order runs
/// its due segments and is stored.
pub open spec fn twap_step(orders: Map<u128, TWAPOrder>, active: Seq<u64>, ids: Seq<u64>, id: u64, now: u64)
    -> (Map<u128, TWAPOrder>, Seq<u64>, Seq<u64>) {
    if !orders.contains_key(id as u128) || orders[id as u128].status != TWAPStatus::Active {
        (orders, active, ids)
    } else {
        let o = orders[id as u128];
        let k = due_segments(o, now);
        let o2 = advanced(o, k);
        (orders.insert(id as u128, o2), after_store(active, id, o2.status), ids + segment_ids(now, o.segments_executed as int, k))
    }
}

/// The first `n` ids of `list` processed in order.
pub open spec fn twap_run(orders: Map<u128, TWAPOrder>, active: Seq<u64>, list: Seq<u64>, n: int, now: u64)
    -> (Map<u128, TWAPOrder>, Seq<u64>, Seq<u64>)
    decreases n,
{
    if n <= 0 {
        (orders, active, Seq::empty())
    } else {
        let prev = twap_run(orders, active, list, n - 1, now);
        twap_step(prev.0, prev.1, prev.2, list[n - 1], now)
    }
}

/// Every active order's due segments fit.
pub open spec fn active_fit(orders: Map<u128, TWAPOrder>, now: u64) -> bool {
    forall|k: u128| #[trigger] orders.contains_key(k) && orders[k].status == TWAPStatus::Active ==>
        segments_fit(orders[k], due_segments(orders[k], now), now)
}

/// The trade ids of `k` segments starting at `executed`, at `now`.
pub open spec fn segment_ids(now: u64, executed: int, k: int) -> Seq<u64> {
    Seq::new(k as nat, |j: int| (now + executed + j) as u64)
}

/// The arithmetic of `k` segments stays within its types.
pub open spec fn segments_fit(o: TWAPOrder, k: int, now: u64) -> bool {
    &&& in_i128(MARKET_PRICE * o.amount_per_segment)
    &&& forall|j: int| 0 <= j <= k ==> in_i128(#[trigger] (o.filled_amount + j * o.amount_per_segment))
        && in_i128(o.weighted_price + j * (MARKET_PRICE * o.amount_per_segment))
    &&& now + o.segments_executed + k <= u64::MAX
}

/// TWAP orders, the active list and the id counter.
pub struct TwapBook {
    pub orders: OrdMap<TWAPOrder>,
    pub counter: u64,
    pub active: Vec<u64>,
}


/// The default number of segments: one per five minutes, at least four.
pub open spec fn default_segments(duration_minutes: u32) -> u32 {
    if duration_minutes / 5 > 4 { (duration_minutes / 5) as u32 } else { 4 }
}

/// Why an order is refused, if it is.
pub open spec fn create_rejected(duration_minutes: u32, num_segments: Option<u32>) -> bool {
    let segments = match num_segments { Some(n) => n, None => default_segments(duration_minutes) };
    duration_minutes == 0 || segments == 0 || segments > ((duration_minutes * 60) as u64) as u32
}

impl TwapBook {
    pub fn new() -> (r: Self)
        ensures
            r.orders@ == Map::<u128, TWAPOrder>::empty(),
            r.counter == 0,
            r.active@ == Seq::<u64>::empty(),
    {
        TwapBook { orders: OrdMap::new(), counter: 0, active: Vec::new() }
    }

    pub fn get_next_twap_id(&mut self) -> (id: u64)
        requires
            old(self).counter < u64::MAX,
        ensures
            id == old(self).counter + 1,
            final(self).counter == id,
            final(self).orders@ == old(self).orders@,
            final(self).active@ == old(self).active@,
    {
        self.counter = self.counter + 1;
        self.counter
    }

    fn active_contains(&self, id: u64) -> (r: bool)
        ensures
            r == self.active@.contains(id),
    {
        let mut i: usize = 0;
        while i < self.active.len()
            invariant
                i <= self.active@.len(),
                forall|j: int| 0 <= j < i ==> self.active@[j] != id,
            decreases self.active@.len() - i,
        {
            if self.active[i] == id {
                proof { assert(self.active@[i as int] == id); }
                return true;
            }
            i = i + 1;
        }
        false
    }

    /// Stores an order and keeps the active list in step with its status.
    pub fn store_twap_order(&mut self, order_id: u64, order: TWAPOrder)
        ensures
            final(self).orders@ == old(self).orders@.insert(order_id as u128, order),
            final(self).active@ == after_store(old(self).active@, order_id, order.status),
            final(self).counter == old(self).counter,
    {
        let status = order.status;
        self.orders.insert(order_id as u128, order);
        if status == TWAPStatus::Active {
            if !self.active_contains(order_id) {
                self.active.push(order_id);
            }
        } else if status != TWAPStatus::Paused {
            let mut i: usize = 0;
            while i < self.active.len()
                invariant
                    i <= self.active@.len(),
                    self.active@ == old(self).active@,
                    self.orders@ == old(self).orders@.insert(order_id as u128, order),
                    self.counter == old(self).counter,
                    status == order.status,
                    status != TWAPStatus::Active && status != TWAPStatus::Paused,
                    forall|j: int| 0 <= j < i ==> self.active@[j] != order_id,
                decreases self.active@.len() - i,
            {
                if self.active[i] == order_id {
                    proof { lemma_remove_first_at(self.active@, order_id, i as int); }
                    self.active.remove(i);
                    return;
                }
                i = i + 1;
            }
            proof { lemma_remove_first_absent(self.active@, order_id); }
        }
    }

    /// A copy of an order.
    pub fn get_twap_order(&self, order_id: u64) -> (r: Result<TWAPOrder, AutoTradeError>)
        ensures
            match r {
                Ok(o) => self.orders@.contains_key(order_id as u128) && o == self.orders@[order_id as u128],
                Err(e) => !self.orders@.contains_key(order_id as u128) && e == AutoTradeError::TWAPOrderNotFound,
            },
    {
        match self.orders.get(order_id as u128) {
            Some(o) => Ok(o.duplicate()),
            None => Err(AutoTradeError::TWAPOrderNotFound),
        }
    }

    /// Creates an active order splitting `total_amount` over
    /// `duration_minutes` into `num_segments` segments (by default one per
    /// five minutes, at least four); returns its id.
    pub fn create_twap_order(&mut self, user: AccountId, pair: AssetPair, total_amount: i128, duration_minutes: u32,
        num_segments: Option<u32>, now: u64) -> (r: Result<u64, AutoTradeError>)
        requires
            !create_rejected(duration_minutes, num_segments) ==> old(self).counter < u64::MAX,
        ensures
            create_rejected(duration_minutes, num_segments) ==> r == Err::<u64, AutoTradeError>(AutoTradeError::InvalidTWAPDuration)
                && final(self).orders@ == old(self).orders@ && final(self).active@ == old(self).active@ && final(self).counter == old(self).counter,
            !create_rejected(duration_minutes, num_segments) ==> {
                let id = (old(self).counter + 1) as u64;
                let segments = match num_segments { Some(n) => n, None => default_segments(duration_minutes) };
                let duration_seconds = (duration_minutes * 60) as u64;
                &&& r == Ok::<u64, AutoTradeError>(id)
                &&& final(self).counter == id
                &&& final(self).active@ == after_store(old(self).active@, id, TWAPStatus::Active)
                &&& final(self).orders@ == old(self).orders@.insert(id as u128, TWAPOrder {
                    id: id, user: user, pair: pair, total_amount: total_amount, duration_seconds: duration_seconds,
                    interval_seconds: (duration_seconds as int / (segments as int)) as u64, start_time: now, segments_executed: 0,
                    total_segments: segments, amount_per_segment: tdiv(total_amount as int, segments as int) as i128,
                    filled_amount: 0, weighted_price: 0, status: TWAPStatus::Active,
                })
            },
    {
        if duration_minutes == 0 {
            return Err(AutoTradeError::InvalidTWAPDuration);
        }
        let duration_seconds: u64 = duration_minutes as u64 * 60;
        let default_segs: u32 = if duration_minutes / 5 > 4 { duration_minutes / 5 } else { 4 };
        let segments: u32 = match num_segments { Some(n) => n, None => default_segs };
        let seconds_u32: u32 = #[verifier::truncate] (duration_seconds as u32);
        if segments == 0 || segments > seconds_u32 {
            return Err(AutoTradeError::InvalidTWAPDuration);
        }
        let interval_seconds = duration_seconds / segments as u64;
        let amount_per_segment = div_toward_zero(total_amount, segments as i128);
        let order_id = self.get_next_twap_id();
        let twap = TWAPOrder {
            id: order_id, user: user, pair: pair, total_amount: total_amount, duration_seconds: duration_seconds,
            interval_seconds: interval_seconds, start_time: now, segments_executed: 0, total_segments: segments,
            amount_per_segment: amount_per_segment, filled_amount: 0, weighted_price: 0, status: TWAPStatus::Active,
        };
        self.store_twap_order(order_id, twap);
        Ok(order_id)
    }

    /// Cancels the user's active order and reports its fills.
    pub fn cancel_twap_order(&mut self, order_id: u64, user: AccountId) -> (r: Result<CancellationSummary, AutoTradeError>)
        requires
            old(self).orders@.contains_key(order_id as u128) ==>
                in_i128(old(self).orders@[order_id as u128].total_amount - old(self).orders@[order_id as u128].filled_amount),
        ensures
            final(self).counter == old(self).counter,
            !old(self).orders@.contains_key(order_id as u128) ==> r == Err::<CancellationSummary, AutoTradeError>(AutoTradeError::TWAPOrderNotFound),
            (old(self).orders@.contains_key(order_id as u128) && old(self).orders@[order_id as u128].user != user)
                ==> r == Err::<CancellationSummary, AutoTradeError>(AutoTradeError::NotTWAPOwner),
            (old(self).orders@.contains_key(order_id as u128) && old(self).orders@[order_id as u128].user == user
                && old(self).orders@[order_id as u128].status != TWAPStatus::Active)
                ==> r == Err::<CancellationSummary, AutoTradeError>(AutoTradeError::TWAPNotActive),
            r is Err ==> final(self).orders@ == old(self).orders@ && final(self).active@ == old(self).active@,
            r is Ok ==> {
                let o = old(self).orders@[order_id as u128];
                &&& old(self).orders@.contains_key(order_id as u128) && o.user == user && o.status == TWAPStatus::Active
                &&& final(self).orders@ == old(self).orders@.insert(order_id as u128, TWAPOrder { status: TWAPStatus::Cancelled, ..o })
                &&& final(self).active@ == remove_first(old(self).active@, order_id)
                &&& r == Ok::<CancellationSummary, AutoTradeError>(CancellationSummary {
                    filled_amount: o.filled_amount,
                    remaining_amount: (o.total_amount - o.filled_amount) as i128,
                    avg_price: if o.filled_amount > 0 { tdiv(o.weighted_price as int, o.filled_amount as int) as i128 } else { 0 },
                    segments_executed: o.segments_executed,
                })
            },
    {
        let mut twap = self.get_twap_order(order_id)?;
        if twap.user != user {
            return Err(AutoTradeError::NotTWAPOwner);
        }
        if twap.status != TWAPStatus::Active {
            return Err(AutoTradeError::TWAPNotActive);
        }
        twap.status = TWAPStatus::Cancelled;
        let remaining_amount = twap.total_amount - twap.filled_amount;
        let avg_price = if twap.filled_amount > 0 { div_toward_zero(twap.weighted_price, twap.filled_amount) } else { 0 };
        let summary = CancellationSummary {
            filled_amount: twap.filled_amount,
            remaining_amount: remaining_amount,
            avg_price: avg_price,
            segments_executed: twap.segments_executed,
        };
        self.store_twap_order(order_id, twap);
        Ok(summary)
    }

    /// Slows an order down when volatility is at least half again its
    /// baseline: the interval grows by half.
    pub fn adjust_twap_strategy(&mut self, order_id: u64) -> (r: Result<(), AutoTradeError>)
        requires
            old(self).orders@.contains_key(order_id as u128) ==> old(self).orders@[order_id as u128].interval_seconds * 150 <= u64::MAX,
        ensures
            final(self).counter == old(self).counter,
            !old(self).orders@.contains_key(order_id as u128) ==> r == Err::<(), AutoTradeError>(AutoTradeError::TWAPOrderNotFound)
                && final(self).orders@ == old(self).orders@ && final(self).active@ == old(self).active@,
            old(self).orders@.contains_key(order_id as u128) ==> {
                let o = old(self).orders@[order_id as u128];
                &&& r is Ok
                &&& CURRENT_VOLATILITY >= BASELINE_VOLATILITY * 150 / 100 ==> {
                    &&& final(self).orders@ == old(self).orders@.insert(order_id as u128,
                        TWAPOrder { interval_seconds: (o.interval_seconds * 150 / 100) as u64, ..o })
                    &&& final(self).active@ == after_store(old(self).active@, order_id, o.status)
                }
                &&& CURRENT_VOLATILITY < BASELINE_VOLATILITY * 150 / 100 ==>
                    final(self).orders@ == old(self).orders@ && final(self).active@ == old(self).active@
            },
    {
        let mut twap = self.get_twap_order(order_id)?;
        let current_volatility = calculate_volatility(&twap.pair, 1)?;
        let baseline_volatility = get_baseline_volatility(&twap.pair)?;
        if current_volatility >= baseline_volatility * 150 / 100 {
            twap.interval_seconds = twap.interval_seconds * 150 / 100;
            self.store_twap_order(order_id, twap);
        }
        Ok(())
    }
}


/// Executes one segment at `now`: fills `amount_per_segment` at the market
/// price; returns the segment's trade id.
fn execute_twap_segment(twap: &mut TWAPOrder, now: u64) -> (r: Result<u64, AutoTradeError>)
    requires
        in_i128(old(twap).filled_amount + old(twap).amount_per_segment),
        in_i128(MARKET_PRICE * old(twap).amount_per_segment),
        in_i128(old(twap).weighted_price + MARKET_PRICE * old(twap).amount_per_segment),
        old(twap).segments_executed < u32::MAX,
        now + old(twap).segments_executed <= u64::MAX,
    ensures
        r == Ok::<u64, AutoTradeError>((now + old(twap).segments_executed) as u64),
        *final(twap) == progressed(*old(twap), 1),
{
    let simulated_trade_id = now + twap.segments_executed as u64;
    let simulated_price = get_market_price(&twap.pair)?;
    let simulated_fill = twap.amount_per_segment;
    twap.filled_amount = twap.filled_amount + simulated_fill;
    twap.weighted_price = twap.weighted_price + simulated_price * simulated_fill;
    twap.segments_executed = twap.segments_executed + 1;
    Ok(simulated_trade_id)
}

/// The stored orders behind a list of ids, in list order.
pub open spec fn orders_listed(ids: Seq<u64>, m: Map<u128, TWAPOrder>) -> Seq<TWAPOrder>
    decreases ids.len(),
{
    if ids.len() == 0 {
        Seq::empty()
    } else {
        let prev = orders_listed(ids.drop_last(), m);
        if m.contains_key(ids.last() as u128) { prev.push(m[ids.last() as u128]) } else { prev }
    }
}

proof fn lemma_progressed_step(o: TWAPOrder, j: int)
    ensures
        progressed(progressed(o, j), 1) == progressed(o, j + 1) || !(
            in_i128(o.filled_amount + j * o.amount_per_segment) && in_i128(o.weighted_price + j * (MARKET_PRICE * o.amount_per_segment))
            && 0 <= o.segments_executed + j <= u32::MAX),
{
    if in_i128(o.filled_amount + j * o.amount_per_segment) && in_i128(o.weighted_price + j * (MARKET_PRICE * o.amount_per_segment))
        && 0 <= o.segments_executed + j <= u32::MAX {
        assert((j + 1) * o.amount_per_segment == j * o.amount_per_segment + o.amount_per_segment) by (nonlinear_arith);
        assert((j + 1) * (MARKET_PRICE * o.amount_per_segment) == j * (MARKET_PRICE * o.amount_per_segment) + MARKET_PRICE * o.amount_per_segment) by (nonlinear_arith);
    }
}

impl TwapBook {
    /// The orders on the active list, in list order.
    pub fn get_active_twap_orders(&self) -> (r: Vec<TWAPOrder>)
        ensures
            r@ == orders_listed(self.active@, self.orders@),
    {
        let mut out: Vec<TWAPOrder> = Vec::new();
        let mut i: usize = 0;
        while i < self.active.len()
            invariant
                i <= self.active@.len(),
                out@ == orders_listed(self.active@.take(i as int), self.orders@),
            decreases self.active@.len() - i,
        {
            proof { assert(self.active@.take(i as int + 1).drop_last() =~= self.active@.take(i as int)); }
            match self.orders.get(self.active[i] as u128) {
                Some(o) => out.push(o.duplicate()),
                None => {},
            }
            i = i + 1;
        }
        proof { assert(self.active@.take(self.active@.len() as int) =~= self.active@); }
        out
    }

    /// Executes the segments due at `now` for each order of the active list
    /// (see `twap_step`); returns the trade ids of the segments, in order.
    pub fn execute_twap_segments(&mut self, now: u64) -> (r: Vec<u64>)
        requires
            active_fit(old(self).orders@, now),
        ensures
            final(self).counter == old(self).counter,
            (final(self).orders@, final(self).active@, r@) == twap_run(old(self).orders@, old(self).active@, old(self).active@,
                old(self).active@.len() as int, now),
    {
        let ids = self.active.clone();
        let ghost orders0 = self.orders@;
        let ghost active0 = self.active@;
        proof { assert(ids@ =~= active0); }
        let mut executed_ids: Vec<u64> = Vec::new();
        let mut i: usize = 0;
        while i < ids.len()
            invariant
                i <= ids@.len(),
                ids@ == active0,
                self.counter == old(self).counter,
                (self.orders@, self.active@, executed_ids@) == twap_run(orders0, active0, ids@, i as int, now),
                active_fit(self.orders@, now),
            decreases ids@.len() - i,
        {
            let id = ids[i];
            let ghost before = self.orders@;
            let ghost ids_before = executed_ids@;
            let maybe = match self.orders.get(id as u128) {
                Some(o) => if o.status == TWAPStatus::Active { Some(o.duplicate()) } else { None },
                None => None,
            };
            match maybe {
                None => {},
                Some(twap0) => {
                    let mut twap = twap0;
                    let ghost o = twap;
                    proof { assert(segments_fit(o, due_segments(o, now), now)); }
                    let elapsed = if now > twap.start_time { now - twap.start_time } else { 0 };
                    let interval = if twap.interval_seconds > 1 { twap.interval_seconds } else { 1 };
                    let q = elapsed / interval;
                    let expected: u32 = #[verifier::truncate] (q as u32);
                    let ghost k = due_segments(o, now);
                    proof {
                        assert(0 * o.amount_per_segment == 0);
                        assert(0 * (MARKET_PRICE * o.amount_per_segment) == 0);
                        assert(progressed(o, 0) == o);
                    }
                    let mut j: u32 = 0;
                    while twap.segments_executed < expected && twap.segments_executed < twap.total_segments
                        invariant
                            0 <= j <= k,
                            twap == progressed(o, j as int),
                            o.status == TWAPStatus::Active,
                            k == due_segments(o, now),
                            segments_fit(o, k, now),
                            expected as int == ((if now > o.start_time { now - o.start_time } else { 0 }) / (if o.interval_seconds > 1 { o.interval_seconds as int } else { 1 })) as u32,
                            executed_ids@ == ids_before + segment_ids(now, o.segments_executed as int, j as int),
                        decreases k - j,
                    {
                        proof {
                            assert(twap.segments_executed == o.segments_executed + j);
                            assert(j < k);
                            assert(in_i128(o.filled_amount + (j + 1) * o.amount_per_segment));
                            assert(in_i128(o.filled_amount + j * o.amount_per_segment));
                            lemma_progressed_step(o, j as int);
                            assert((j + 1) * o.amount_per_segment == j * o.amount_per_segment + o.amount_per_segment) by (nonlinear_arith);
                            assert((j + 1) * (MARKET_PRICE * o.amount_per_segment) == j * (MARKET_PRICE * o.amount_per_segment) + MARKET_PRICE * o.amount_per_segment) by (nonlinear_arith);
                        }
                        match execute_twap_segment(&mut twap, now) {
                            Ok(trade_id) => {
                                executed_ids.push(trade_id);
                            },
                            Err(_) => {},
                        }
                        j = j + 1;
                        proof {
                            assert(executed_ids@ =~= ids_before + segment_ids(now, o.segments_executed as int, j as int));
                        }
                    }
                    proof {
                        assert(twap.segments_executed == o.segments_executed + j);
                        assert(j == k);
                    }
                    if twap.segments_executed >= twap.total_segments {
                        twap.status = TWAPStatus::Complete;
                    }
                    proof { assert(twap == advanced(o, k)); }
                    self.store_twap_order(id, twap);
                    proof {
                        assert forall|kk: u128| #[trigger] self.orders@.contains_key(kk) && self.orders@[kk].status == TWAPStatus::Active implies
                            segments_fit(self.orders@[kk], due_segments(self.orders@[kk], now), now) by {
                            if kk != id as u128 {
                                assert(before.contains_key(kk));
                            } else {
                                let n = self.orders@[kk];
                                assert(due_segments(n, now) == 0);
                            }
                        }
                    }
                },
            }
            i = i + 1;
        }
        executed_ids
    }
}


/// Running an order's due segments never executes more segments than it
/// has, keeps its filled amount equal to the executed segments times the
/// segment size, and completes it exactly when every segment is done.
pub proof fn law_twap_progress_consistent(o: TWAPOrder, now: u64)
    requires
        o.status == TWAPStatus::Active,
        o.segments_executed <= o.total_segments,
        o.filled_amount == o.segments_executed * o.amount_per_segment,
        segments_fit(o, due_segments(o, now), now),
    ensures
        ({
            let o2 = advanced(o, due_segments(o, now));
            &&& o2.segments_executed <= o2.total_segments
            &&& o2.filled_amount == o2.segments_executed * o2.amount_per_segment
            &&& (o2.status == TWAPStatus::Complete) == (o2.segments_executed == o2.total_segments)
        }),
{
    let k = due_segments(o, now);
    let e = o.segments_executed as int;
    let a = o.amount_per_segment as int;
    assert(o.filled_amount + k * a == (e + k) * a) by (nonlinear_arith)
        requires o.filled_amount == e * a;
    assert(in_i128(o.filled_amount + k * a));
}

/// Processing the active list leaves an order that is not active (a
/// cancelled or completed one) exactly as it was, and fills nothing for it.
pub proof fn law_inactive_order_untouched(orders: Map<u128, TWAPOrder>, active: Seq<u64>, ids: Seq<u64>, id: u64, now: u64)
    requires
        orders.contains_key(id as u128),
        orders[id as u128].status != TWAPStatus::Active,
    ensures
        twap_step(orders, active, ids, id, now) == (orders, active, ids),
{
}


/// An order never fills more than its total: with the segment size its
/// total divided by its segment count, the executed segments (at most all
/// of them) fill at most the total.
pub proof fn law_twap_never_overfills(o: TWAPOrder)
    requires
        o.total_amount >= 0,
        o.total_segments > 0,
        o.amount_per_segment == tdiv(o.total_amount as int, o.total_segments as int),
        o.segments_executed <= o.total_segments,
        o.filled_amount == o.segments_executed * o.amount_per_segment,
    ensures
        0 <= o.filled_amount <= o.total_amount,
{
    let e = o.segments_executed as int;
    let n = o.total_segments as int;
    let s = o.amount_per_segment as int;
    let total = o.total_amount as int;
    assert(s == total / n);
    assert(0 <= s * n <= total) by (nonlinear_arith)
        requires s == total / n, n > 0, total >= 0;
    assert(0 <= e * s <= n * s) by (nonlinear_arith)
        requires 0 <= e <= n, s >= 0;
}

}
