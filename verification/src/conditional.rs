//! Conditional orders: an order fires when its conditions (on price, time,
//! a drop and rebound, or a volatility breakout) hold, all of them or any
//! one of them.
use vstd::prelude::*;
use crate::errors::AutoTradeError;
use crate::math::{in_i128, tdiv, div_toward_zero};
use crate::risk::RiskBook;
use crate::store::OrdMap;
use crate::AccountId;

verus! {

/// Direction of a price condition.
#[derive(Clone, Copy, Debug, PartialEq, Eq, Structural)]
pub enum PriceDirection {
    Above,
    Below,
}

/// One trigger condition.
#[derive(Clone, Copy, Debug, PartialEq, Eq, Structural)]
pub enum Condition {
    /// The price of asset `.0` is at or `.1` the threshold `.2`.
    Price(u32, PriceDirection, i128),
    /// The time is at or after `.0`.
    TimeAfter(u64),
    /// Asset `.0` fell `.1` bps below the reference and rebounded `.2` bps
    /// from its trough.
    PriceDropRebound(u32, u32, u32),
    /// Asset `.0` moved `.1` bps or more from the reference.
    VolatilityBreakout(u32, u32),
}

/// How conditions combine.
#[derive(Clone, Copy, Debug, PartialEq, Eq, Structural)]
pub enum LogicOp {
    And,
    Or,
}

/// Side of a conditional order.
#[derive(Clone, Copy, Debug, PartialEq, Eq, Structural)]
pub enum ConditionalSide {
    Buy,
    Sell,
}

/// Lifecycle of a conditional order.
#[derive(Clone, Copy, Debug, PartialEq, Eq, Structural)]
pub enum ConditionalStatus {
    Pending,
    Triggered,
    Executed,
    Expired,
    Cancelled,
}

/// A conditional order.
#[derive(Debug)]
pub struct ConditionalOrder {
    pub id: u64,
    pub user: AccountId,
    pub asset_id: u32,
    pub side: ConditionalSide,
    pub amount: i128,
    /// Limit price for execution (0 for market).
    pub limit_price: i128,
    pub conditions: Vec<Condition>,
    pub logic: LogicOp,
    pub status: ConditionalStatus,
    pub created_at: u64,
    pub expires_at: u64,
    /// The asset's price when the order was created.
    pub reference_price: i128,
    /// The lowest price seen since.
    pub trough_price: i128,
}

impl ConditionalOrder {
    pub fn duplicate(&self) -> (r: Self)
        ensures
            same_order(r, *self),
    {
        let conditions = self.conditions.clone();
        proof { assert(conditions@ =~= self.conditions@); }
        ConditionalOrder {
            id: self.id,
            user: self.user,
            asset_id: self.asset_id,
            side: self.side,
            amount: self.amount,
            limit_price: self.limit_price,
            conditions: conditions,
            logic: self.logic,
            status: self.status,
            created_at: self.created_at,
            expires_at: self.expires_at,
            reference_price: self.reference_price,
            trough_price: self.trough_price,
        }
    }
}

/// Two orders agree in every field (conditions by their contents).
pub open spec fn same_order(a: ConditionalOrder, b: ConditionalOrder) -> bool {
    &&& a.id == b.id
    &&& a.user == b.user
    &&& a.asset_id == b.asset_id
    &&& a.side == b.side
    &&& a.amount == b.amount
    &&& a.limit_price == b.limit_price
    &&& a.conditions@ == b.conditions@
    &&& a.logic == b.logic
    &&& a.status == b.status
    &&& a.created_at == b.created_at
    &&& a.expires_at == b.expires_at
    &&& a.reference_price == b.reference_price
    &&& a.trough_price == b.trough_price
}

/// The book's persistent slots.
#[derive(Clone, Copy, Debug, PartialEq, Eq, Structural)]
pub enum ConditionalKey {
    Counter,
    Order(u64),
    ActiveOrders,
}

/// An asset's current price, 0 when unknown.
pub open spec fn price_or_zero(prices: Map<u128, i128>, asset: u32) -> int {
    if prices.contains_key(asset as u128) { prices[asset as u128] as int } else { 0 }
}

/// Whether one condition holds, with the order's reference and trough.
pub open spec fn holds(c: Condition, reference: int, trough: int, prices: Map<u128, i128>, now: u64) -> bool {
    match c {
        Condition::Price(asset, dir, threshold) => match dir {
            PriceDirection::Above => price_or_zero(prices, asset) >= threshold,
            PriceDirection::Below => price_or_zero(prices, asset) <= threshold,
        },
        Condition::TimeAfter(t) => now >= t,
        Condition::PriceDropRebound(asset, drop_bps, rebound_bps) => {
            let drop_threshold = tdiv(reference * (10_000 - drop_bps), 10_000);
            reference != 0 && !(trough == 0 || trough > drop_threshold)
                && price_or_zero(prices, asset) >= tdiv(trough * (10_000 + rebound_bps), 10_000)
        },
        Condition::VolatilityBreakout(asset, threshold_bps) => {
            let price = price_or_zero(prices, asset);
            let diff = if price > reference { price - reference } else { reference - price };
            reference != 0 && diff * 10_000 >= reference * threshold_bps
        },
    }
}

/// The arithmetic of evaluating a condition stays within `i128`.
pub open spec fn condition_fits(c: Condition, reference: int, trough: int, prices: Map<u128, i128>) -> bool {
    match c {
        Condition::PriceDropRebound(asset, drop_bps, rebound_bps) => {
            &&& in_i128(reference * (10_000 - drop_bps))
            &&& in_i128(trough * (10_000 + rebound_bps))
        },
        Condition::VolatilityBreakout(asset, threshold_bps) => {
            let price = price_or_zero(prices, asset);
            let diff = if price > reference { price - reference } else { reference - price };
            &&& in_i128(price - reference)
            &&& in_i128(reference - price)
            &&& in_i128(diff * 10_000)
            &&& in_i128(reference * threshold_bps)
        },
        _ => true,
    }
}

/// Whether an order's conditions fire: all of them for `And`, any for `Or`.
pub open spec fn fires(conds: Seq<Condition>, logic: LogicOp, reference: int, trough: int, prices: Map<u128, i128>, now: u64) -> bool {
    match logic {
        LogicOp::And => forall|i: int| 0 <= i < conds.len() ==> #[trigger] holds(conds[i], reference, trough, prices, now),
        LogicOp::Or => exists|i: int| 0 <= i < conds.len() && #[trigger] holds(conds[i], reference, trough, prices, now),
    }
}

/// The trough after seeing the current price of the order's asset.
pub open spec fn trough_after(o: ConditionalOrder, prices: Map<u128, i128>) -> i128 {
    let price = price_or_zero(prices, o.asset_id);
    if price > 0 && (o.trough_price == 0 || price < o.trough_price) { price as i128 } else { o.trough_price }
}

/// The order's conditions can be evaluated at the current prices.
pub open spec fn order_fits(o: ConditionalOrder, prices: Map<u128, i128>) -> bool {
    forall|i: int| 0 <= i < o.conditions@.len() ==>
        #[trigger] condition_fits(o.conditions@[i], o.reference_price as int, trough_after(o, prices) as int, prices)
}

/// `s` without its first occurrence of `x`.
pub open spec fn remove_first(s: Seq<u64>, x: u64) -> Seq<u64>
    decreases s.len(),
{
    if s.len() == 0 {
        s
    } else if s[0] == x {
        s.drop_first()
    } else {
        seq![s[0]] + remove_first(s.drop_first(), x)
    }
}

pub proof fn lemma_remove_first_at(s: Seq<u64>, x: u64, p: int)
    requires
        0 <= p < s.len(),
        s[p] == x,
        forall|j: int| 0 <= j < p ==> s[j] != x,
    ensures
        remove_first(s, x) == s.remove(p),
    decreases p,
{
    if p > 0 {
        let t = s.drop_first();
        assert forall|j: int| 0 <= j < p - 1 implies t[j] != x by {
            assert(t[j] == s[j + 1]);
        }
        lemma_remove_first_at(t, x, p - 1);
        assert(seq![s[0]] + t.remove(p - 1) =~= s.remove(p));
    } else {
        assert(s.drop_first() =~= s.remove(0));
    }
}

pub proof fn lemma_remove_first_absent(s: Seq<u64>, x: u64)
    requires
        forall|j: int| 0 <= j < s.len() ==> s[j] != x,
    ensures
        remove_first(s, x) == s,
    decreases s.len(),
{
    if s.len() > 0 {
        let t = s.drop_first();
        assert forall|j: int| 0 <= j < t.len() implies t[j] != x by {
            assert(t[j] == s[j + 1]);
        }
        lemma_remove_first_absent(t, x);
        assert(seq![s[0]] + t =~= s);
    }
}

/// One order of the active list processed at `now`: a missing order is
/// skipped; one no longer pending leaves the list; an expired one becomes
/// `Expired`; otherwise its trough follows the price, and it becomes
/// `Triggered` (and leaves the list) when its conditions fire.
pub open spec fn step(orders: Map<u128, ConditionalOrder>, active: Seq<u64>, fired: Seq<u64>, id: u64,
    prices: Map<u128, i128>, now: u64) -> (Map<u128, ConditionalOrder>, Seq<u64>, Seq<u64>) {
    if !orders.contains_key(id as u128) {
        (orders, active, fired)
    } else {
        let o = orders[id as u128];
        if o.status != ConditionalStatus::Pending {
            (orders, remove_first(active, id), fired)
        } else if now >= o.expires_at {
            (orders.insert(id as u128, ConditionalOrder { status: ConditionalStatus::Expired, ..o }), remove_first(active, id), fired)
        } else {
            let t = trough_after(o, prices);
            if fires(o.conditions@, o.logic, o.reference_price as int, t as int, prices, now) {
                (orders.insert(id as u128, ConditionalOrder { status: ConditionalStatus::Triggered, trough_price: t, ..o }),
                    remove_first(active, id), fired.push(id))
            } else {
                (orders.insert(id as u128, ConditionalOrder { trough_price: t, ..o }), active, fired)
            }
        }
    }
}

/// The first `k` ids of `ids` processed in order.
pub open spec fn run(orders: Map<u128, ConditionalOrder>, active: Seq<u64>, ids: Seq<u64>, k: int,
    prices: Map<u128, i128>, now: u64) -> (Map<u128, ConditionalOrder>, Seq<u64>, Seq<u64>)
    decreases k,
{
    if k <= 0 {
        (orders, active, Seq::empty())
    } else {
        let prev = run(orders, active, ids, k - 1, prices, now);
        step(prev.0, prev.1, prev.2, ids[k - 1], prices, now)
    }
}

/// Every pending order can be evaluated at the current prices.
pub open spec fn pending_fit(orders: Map<u128, ConditionalOrder>, prices: Map<u128, i128>) -> bool {
    forall|k: u128| #[trigger] orders.contains_key(k) && orders[k].status == ConditionalStatus::Pending ==>
        order_fits(orders[k], prices)
}

/// The current price of an asset, 0 when unknown.
fn current_price(risk: &RiskBook, asset_id: u32) -> (r: i128)
    ensures
        r == price_or_zero(risk.prices_spec(), asset_id),
{
    match risk.get_asset_price(asset_id) {
        Some(p) => p,
        None => 0,
    }
}

/// Whether one condition holds.
fn eval_condition(risk: &RiskBook, cond: Condition, reference: i128, trough: i128, now: u64) -> (r: bool)
    requires
        condition_fits(cond, reference as int, trough as int, risk.prices_spec()),
    ensures
        r == holds(cond, reference as int, trough as int, risk.prices_spec(), now),
{
    match cond {
        Condition::Price(asset_id, direction, threshold) => {
            let price = current_price(risk, asset_id);
            match direction {
                PriceDirection::Above => price >= threshold,
                PriceDirection::Below => price <= threshold,
            }
        },
        Condition::TimeAfter(after_ts) => now >= after_ts,
        Condition::PriceDropRebound(asset_id, drop_bps, rebound_bps) => {
            let price = current_price(risk, asset_id);
            if reference == 0 {
                return false;
            }
            let drop_threshold = div_toward_zero(reference * (10_000 - drop_bps as i128), 10_000);
            if trough == 0 || trough > drop_threshold {
                return false;
            }
            let rebound_threshold = div_toward_zero(trough * (10_000 + rebound_bps as i128), 10_000);
            price >= rebound_threshold
        },
        Condition::VolatilityBreakout(asset_id, threshold_bps) => {
            let price = current_price(risk, asset_id);
            if reference == 0 {
                return false;
            }
            let diff = if price > reference { price - reference } else { reference - price };
            diff * 10_000 >= reference * threshold_bps as i128
        },
    }
}

/// Whether the conditions fire together under `logic`.
fn all_triggered(risk: &RiskBook, conditions: &Vec<Condition>, logic: LogicOp, reference: i128, trough: i128, now: u64) -> (r: bool)
    requires
        forall|i: int| 0 <= i < conditions@.len() ==>
            #[trigger] condition_fits(conditions@[i], reference as int, trough as int, risk.prices_spec()),
    ensures
        r == fires(conditions@, logic, reference as int, trough as int, risk.prices_spec(), now),
{
    let mut i: usize = 0;
    match logic {
        LogicOp::And => {
            while i < conditions.len()
                invariant
                    i <= conditions@.len(),
                    forall|j: int| 0 <= j < conditions@.len() ==>
                        #[trigger] condition_fits(conditions@[j], reference as int, trough as int, risk.prices_spec()),
                    logic == LogicOp::And,
                    forall|j: int| 0 <= j < i ==> #[trigger] holds(conditions@[j], reference as int, trough as int, risk.prices_spec(), now),
                decreases conditions@.len() - i,
            {
                if !eval_condition(risk, conditions[i], reference, trough, now) {
                    proof { assert(!holds(conditions@[i as int], reference as int, trough as int, risk.prices_spec(), now)); }
                    return false;
                }
                i = i + 1;
            }
            true
        },
        LogicOp::Or => {
            while i < conditions.len()
                invariant
                    i <= conditions@.len(),
                    forall|j: int| 0 <= j < conditions@.len() ==>
                        #[trigger] condition_fits(conditions@[j], reference as int, trough as int, risk.prices_spec()),
                    logic == LogicOp::Or,
                    forall|j: int| 0 <= j < i ==> !#[trigger] holds(conditions@[j], reference as int, trough as int, risk.prices_spec(), now),
                decreases conditions@.len() - i,
            {
                if eval_condition(risk, conditions[i], reference, trough, now) {
                    proof { assert(holds(conditions@[i as int], reference as int, trough as int, risk.prices_spec(), now)); }
                    return true;
                }
                i = i + 1;
            }
            false
        },
    }
}


proof fn lemma_trough_idempotent(o: ConditionalOrder, t: i128, prices: Map<u128, i128>)
    requires
        t == trough_after(o, prices),
    ensures
        trough_after(ConditionalOrder { trough_price: t, ..o }, prices) == t,
{
}

/// All conditional orders, the active list and the id counter.
pub struct ConditionalBook {
    pub orders: OrdMap<ConditionalOrder>,
    pub counter: u64,
    pub active: Vec<u64>,
}

impl ConditionalBook {
    pub fn new() -> (r: Self)
        ensures
            r.orders@ == Map::<u128, ConditionalOrder>::empty(),
            r.counter == 0,
            r.active@ == Seq::<u64>::empty(),
    {
        ConditionalBook { orders: OrdMap::new(), counter: 0, active: Vec::new() }
    }

    fn next_id(&mut self) -> (id: u64)
        requires
            old(self).counter < u64::MAX,
        ensures
            id == old(self).counter + 1,
            final(self).counter == id,
            final(self).orders@ == old(self).orders@,
            final(self).active@ == old(self).active@,
    {
        self.counter = self.counter + 1;
        self.counter
    }

    /// Adds an id to the active list unless it is there.
    fn add_active(&mut self, id: u64)
        ensures
            final(self).active@ == (if old(self).active@.contains(id) { old(self).active@ } else { old(self).active@.push(id) }),
            final(self).orders@ == old(self).orders@,
            final(self).counter == old(self).counter,
    {
        let mut i: usize = 0;
        while i < self.active.len()
            invariant
                i <= self.active@.len(),
                forall|j: int| 0 <= j < i ==> self.active@[j] != id,
            decreases self.active@.len() - i,
        {
            if self.active[i] == id {
                return;
            }
            i = i + 1;
        }
        self.active.push(id);
    }

    /// Removes the first occurrence of an id from the active list.
    fn remove_active(&mut self, id: u64)
        ensures
            final(self).active@ == remove_first(old(self).active@, id),
            final(self).orders@ == old(self).orders@,
            final(self).counter == old(self).counter,
    {
        let mut i: usize = 0;
        while i < self.active.len()
            invariant
                i <= self.active@.len(),
                self.active@ == old(self).active@,
                self.orders@ == old(self).orders@,
                self.counter == old(self).counter,
                forall|j: int| 0 <= j < i ==> self.active@[j] != id,
            decreases self.active@.len() - i,
        {
            if self.active[i] == id {
                proof { lemma_remove_first_at(self.active@, id, i as int); }
                self.active.remove(i);
                return;
            }
            i = i + 1;
        }
        proof { lemma_remove_first_absent(self.active@, id); }
    }

    /// A copy of an order.
    pub fn get_conditional_order(&self, id: u64) -> (r: Result<ConditionalOrder, AutoTradeError>)
        ensures
            match r {
                Ok(o) => self.orders@.contains_key(id as u128) && same_order(o, self.orders@[id as u128]),
                Err(e) => !self.orders@.contains_key(id as u128) && e == AutoTradeError::ConditionalOrderNotFound,
            },
    {
        match self.orders.get(id as u128) {
            Some(o) => Ok(o.duplicate()),
            None => Err(AutoTradeError::ConditionalOrderNotFound),
        }
    }

    /// Creates a pending order on an asset, with the asset's current price
    /// as its reference and trough, expiring `expires_in_seconds` from
    /// `now`; returns its id.
    pub fn create_conditional_order(&mut self, risk: &RiskBook, user: AccountId, asset_id: u32, side: ConditionalSide,
        amount: i128, limit_price: i128, conditions: Vec<Condition>, logic: LogicOp, expires_in_seconds: u64, now: u64)
        -> (r: Result<u64, AutoTradeError>)
        requires
            (amount > 0 && conditions@.len() > 0) ==> old(self).counter < u64::MAX && now + expires_in_seconds <= u64::MAX,
        ensures
            amount <= 0 ==> r == Err::<u64, AutoTradeError>(AutoTradeError::InvalidAmount),
            (amount > 0 && conditions@.len() == 0) ==> r == Err::<u64, AutoTradeError>(AutoTradeError::InvalidConditionalConfig),
            r is Err ==> final(self).orders@ == old(self).orders@ && final(self).active@ == old(self).active@
                && final(self).counter == old(self).counter,
            r is Ok <==> (amount > 0 && conditions@.len() > 0),
            r matches Ok(id) ==> {
                let o = final(self).orders@[id as u128];
                let price = price_or_zero(risk.prices_spec(), asset_id) as i128;
                &&& id == old(self).counter + 1
                &&& final(self).counter == id
                &&& final(self).orders@ == old(self).orders@.insert(id as u128, o)
                &&& o.id == id && o.user == user && o.asset_id == asset_id && o.side == side
                &&& o.amount == amount && o.limit_price == limit_price && o.conditions@ == conditions@
                &&& o.logic == logic && o.status == ConditionalStatus::Pending && o.created_at == now
                &&& o.expires_at == now + expires_in_seconds
                &&& o.reference_price == price && o.trough_price == price
                &&& final(self).active@ == (if old(self).active@.contains(id) { old(self).active@ } else { old(self).active@.push(id) })
            },
    {
        if amount <= 0 {
            return Err(AutoTradeError::InvalidAmount);
        }
        if conditions.len() == 0 {
            return Err(AutoTradeError::InvalidConditionalConfig);
        }
        let ref_price = current_price(risk, asset_id);
        let id = self.next_id();
        let order = ConditionalOrder {
            id: id,
            user: user,
            asset_id: asset_id,
            side: side,
            amount: amount,
            limit_price: limit_price,
            conditions: conditions,
            logic: logic,
            status: ConditionalStatus::Pending,
            created_at: now,
            expires_at: now + expires_in_seconds,
            reference_price: ref_price,
            trough_price: ref_price,
        };
        self.orders.insert(id as u128, order);
        self.add_active(id);
        proof {
            assert(self.orders@ =~= old(self).orders@.insert(id as u128, self.orders@[id as u128]));
        }
        Ok(id)
    }

    /// Cancels the user's pending order.
    pub fn cancel_conditional_order(&mut self, id: u64, user: AccountId) -> (r: Result<(), AutoTradeError>)
        ensures
            final(self).counter == old(self).counter,
            !old(self).orders@.contains_key(id as u128) ==> r == Err::<(), AutoTradeError>(AutoTradeError::ConditionalOrderNotFound),
            (old(self).orders@.contains_key(id as u128) && old(self).orders@[id as u128].user != user) ==>
                r == Err::<(), AutoTradeError>(AutoTradeError::Unauthorized),
            (old(self).orders@.contains_key(id as u128) && old(self).orders@[id as u128].user == user
                && old(self).orders@[id as u128].status != ConditionalStatus::Pending) ==>
                r == Err::<(), AutoTradeError>(AutoTradeError::ConditionalOrderNotPending),
            r is Err ==> final(self).orders@ == old(self).orders@ && final(self).active@ == old(self).active@,
            r is Ok ==> {
                let o = old(self).orders@[id as u128];
                &&& old(self).orders@.contains_key(id as u128) && o.user == user && o.status == ConditionalStatus::Pending
                &&& final(self).orders@ == old(self).orders@.insert(id as u128, ConditionalOrder { status: ConditionalStatus::Cancelled, ..o })
                &&& final(self).active@ == remove_first(old(self).active@, id)
            },
    {
        let mut order = match self.orders.remove(id as u128) {
            Some(o) => o,
            None => return Err(AutoTradeError::ConditionalOrderNotFound),
        };
        if order.user != user {
            self.orders.insert(id as u128, order);
            proof { assert(self.orders@ =~= old(self).orders@); }
            return Err(AutoTradeError::Unauthorized);
        }
        if order.status != ConditionalStatus::Pending {
            self.orders.insert(id as u128, order);
            proof { assert(self.orders@ =~= old(self).orders@); }
            return Err(AutoTradeError::ConditionalOrderNotPending);
        }
        order.status = ConditionalStatus::Cancelled;
        self.orders.insert(id as u128, order);
        proof { assert(self.orders@ =~= old(self).orders@.insert(id as u128, self.orders@[id as u128])); }
        self.remove_active(id);
        Ok(())
    }

    /// Marks a triggered order as executed.
    pub fn mark_executed(&mut self, id: u64) -> (r: Result<(), AutoTradeError>)
        ensures
            final(self).counter == old(self).counter,
            final(self).active@ == old(self).active@,
            !old(self).orders@.contains_key(id as u128) ==> r == Err::<(), AutoTradeError>(AutoTradeError::ConditionalOrderNotFound),
            (old(self).orders@.contains_key(id as u128) && old(self).orders@[id as u128].status != ConditionalStatus::Triggered) ==>
                r == Err::<(), AutoTradeError>(AutoTradeError::ConditionalOrderNotTriggered),
            r is Err ==> final(self).orders@ == old(self).orders@,
            r is Ok ==> {
                let o = old(self).orders@[id as u128];
                &&& old(self).orders@.contains_key(id as u128) && o.status == ConditionalStatus::Triggered
                &&& final(self).orders@ == old(self).orders@.insert(id as u128, ConditionalOrder { status: ConditionalStatus::Executed, ..o })
            },
    {
        let mut order = match self.orders.remove(id as u128) {
            Some(o) => o,
            None => return Err(AutoTradeError::ConditionalOrderNotFound),
        };
        if order.status != ConditionalStatus::Triggered {
            self.orders.insert(id as u128, order);
            proof { assert(self.orders@ =~= old(self).orders@); }
            return Err(AutoTradeError::ConditionalOrderNotTriggered);
        }
        order.status = ConditionalStatus::Executed;
        self.orders.insert(id as u128, order);
        proof { assert(self.orders@ =~= old(self).orders@.insert(id as u128, self.orders@[id as u128])); }
        Ok(())
    }

    /// Processes the active orders at the current prices and `now` (see
    /// `step`); returns the ids of the orders that fired, in list order.
    pub fn check_and_trigger(&mut self, risk: &RiskBook, now: u64) -> (r: Vec<u64>)
        requires
            pending_fit(old(self).orders@, risk.prices_spec()),
        ensures
            final(self).counter == old(self).counter,
            (final(self).orders@, final(self).active@, r@)
                == run(old(self).orders@, old(self).active@, old(self).active@, old(self).active@.len() as int, risk.prices_spec(), now),
    {
        let ids = self.active.clone();
        let ghost prices = risk.prices_spec();
        let ghost orders0 = self.orders@;
        let ghost active0 = self.active@;
        proof { assert(ids@ =~= active0); }
        let mut triggered: Vec<u64> = Vec::new();
        let mut i: usize = 0;
        while i < ids.len()
            invariant
                i <= ids@.len(),
                ids@ == active0,
                prices == risk.prices_spec(),
                self.counter == old(self).counter,
                (self.orders@, self.active@, triggered@) == run(orders0, active0, ids@, i as int, prices, now),
                pending_fit(self.orders@, prices),
            decreases ids@.len() - i,
        {
            let id = ids[i];
            let ghost before = self.orders@;
            match self.orders.remove(id as u128) {
                None => {
                    proof { assert(self.orders@ =~= before); }
                },
                Some(mut order) => {
                    if order.status != ConditionalStatus::Pending {
                        self.orders.insert(id as u128, order);
                        proof { assert(self.orders@ =~= before); }
                        self.remove_active(id);
                    } else if now >= order.expires_at {
                        order.status = ConditionalStatus::Expired;
                        self.orders.insert(id as u128, order);
                        proof { assert(self.orders@ =~= before.insert(id as u128, self.orders@[id as u128])); }
                        self.remove_active(id);
                    } else {
                        let ghost o = order;
                        let price = current_price(risk, order.asset_id);
                        if price > 0 && (order.trough_price == 0 || price < order.trough_price) {
                            order.trough_price = price;
                        }
                        proof {
                            assert(order.trough_price == trough_after(o, prices));
                            assert(order_fits(o, prices));
                            assert forall|j: int| 0 <= j < order.conditions@.len() implies
                                #[trigger] condition_fits(order.conditions@[j], order.reference_price as int, order.trough_price as int, prices) by {
                                assert(condition_fits(o.conditions@[j], o.reference_price as int, trough_after(o, prices) as int, prices));
                            }
                        }
                        let fired = all_triggered(risk, &order.conditions, order.logic, order.reference_price, order.trough_price, now);
                        if fired {
                            order.status = ConditionalStatus::Triggered;
                            self.orders.insert(id as u128, order);
                            self.remove_active(id);
                            triggered.push(id);
                        } else {
                            self.orders.insert(id as u128, order);
                        }
                        proof {
                            assert(self.orders@ =~= before.insert(id as u128, self.orders@[id as u128]));
                            lemma_trough_idempotent(o, trough_after(o, prices), prices);
                        }
                    }
                },
            }
            proof {
                assert forall|k: u128| #[trigger] self.orders@.contains_key(k) && self.orders@[k].status == ConditionalStatus::Pending
                    implies order_fits(self.orders@[k], prices) by {
                    if k != id as u128 {
                        assert(before.contains_key(k) && before[k] == self.orders@[k]);
                    } else {
                        let o = before[k];
                        let n = self.orders@[k];
                        assert(before.contains_key(k));
                        assert(order_fits(o, prices));
                        assert(trough_after(n, prices) == trough_after(o, prices));
                        assert forall|j: int| 0 <= j < n.conditions@.len() implies
                            #[trigger] condition_fits(n.conditions@[j], n.reference_price as int, trough_after(n, prices) as int, prices) by {
                            assert(condition_fits(o.conditions@[j], o.reference_price as int, trough_after(o, prices) as int, prices));
                        }
                    }
                }
            }
            i = i + 1;
        }
        triggered
    }
}


/// Only pending orders fire: every order a trigger run fires was pending
/// before the run, so an order already triggered, executed, cancelled or
/// expired never fires again. The run also adds no order and takes an
/// order out of `Pending` only.
pub proof fn law_only_pending_orders_fire(orders: Map<u128, ConditionalOrder>, active: Seq<u64>, ids: Seq<u64>, k: int,
    prices: Map<u128, i128>, now: u64)
    requires
        0 <= k <= ids.len(),
    ensures
        ({
            let r = run(orders, active, ids, k, prices, now);
            &&& r.0.dom() == orders.dom()
            &&& forall|x: u128| #[trigger] r.0.contains_key(x) && r.0[x].status == ConditionalStatus::Pending
                ==> orders[x].status == ConditionalStatus::Pending
            &&& forall|i: int| 0 <= i < r.2.len() ==> orders.contains_key(#[trigger] r.2[i] as u128)
                && orders[r.2[i] as u128].status == ConditionalStatus::Pending
        }),
    decreases k,
{
    if k > 0 {
        law_only_pending_orders_fire(orders, active, ids, k - 1, prices, now);
        let prev = run(orders, active, ids, k - 1, prices, now);
        let id = ids[k - 1];
        let r = step(prev.0, prev.1, prev.2, id, prices, now);
        assert(r == run(orders, active, ids, k, prices, now));
        if prev.0.contains_key(id as u128) {
            assert(r.0.dom() =~= prev.0.dom());
            assert forall|i: int| 0 <= i < r.2.len() implies orders.contains_key(#[trigger] r.2[i] as u128)
                && orders[r.2[i] as u128].status == ConditionalStatus::Pending by {
                if i < prev.2.len() {
                    assert(r.2[i] == prev.2[i]);
                }
            }
        }
    }
}

}

verus! {

/// A volatility breakout holds exactly when the reference is set and the
/// asset's price has moved, up or down, by at least `threshold_bps` basis
/// points of the reference.
pub proof fn law_breakout_is_a_move_either_way(asset: u32, threshold_bps: u32, reference: int, trough: int,
    prices: Map<u128, i128>, now: u64)
    ensures
        holds(Condition::VolatilityBreakout(asset, threshold_bps), reference, trough, prices, now) <==> {
            let move_size = crate::math::abs(price_or_zero(prices, asset) - reference);
            &&& reference != 0
            &&& move_size * 10_000 >= reference * threshold_bps
        },
{
}

/// A move down from the reference triggers a volatility breakout exactly
/// when a move up of the same size does.
pub proof fn law_breakout_symmetric(asset: u32, threshold_bps: u32, reference: int, trough: int,
    prices: Map<u128, i128>, now: u64, up: i128, down: i128)
    requires
        up - reference == reference - down,
    ensures
        holds(Condition::VolatilityBreakout(asset, threshold_bps), reference, trough, prices.insert(asset as u128, up), now)
            == holds(Condition::VolatilityBreakout(asset, threshold_bps), reference, trough, prices.insert(asset as u128, down), now),
{
    assert(price_or_zero(prices.insert(asset as u128, up), asset) == up);
    assert(price_or_zero(prices.insert(asset as u128, down), asset) == down);
}

}

verus! {

/// A price condition compares the asset's latest price (0 when it has none)
/// with its threshold in the condition's direction, inclusively; a time
/// condition holds from its time on.
pub proof fn law_price_and_time_conditions(asset: u32, threshold: i128, at: u64, reference: int, trough: int,
    prices: Map<u128, i128>, now: u64)
    ensures
        ({
            let price: int = if prices.contains_key(asset as u128) { prices[asset as u128] as int } else { 0 };
            &&& holds(Condition::Price(asset, PriceDirection::Above, threshold), reference, trough, prices, now) <==> price >= threshold
            &&& holds(Condition::Price(asset, PriceDirection::Below, threshold), reference, trough, prices, now) <==> price <= threshold
            &&& holds(Condition::TimeAfter(at), reference, trough, prices, now) <==> now >= at
        }),
{
}

}
