//! Dollar-cost averaging: a fixed amount bought at a fixed interval, with
//! the running totals, the average entry price and a performance report.
use vstd::prelude::*;
use crate::errors::AutoTradeError;
use crate::math::{in_i128, tdiv, div_toward_zero};
use crate::store::OrdMap;
use crate::AccountId;

verus! {

pub const PRECISION: i128 = 1_000_000;
/// The price used for an asset with none recorded.
pub const DEFAULT_SIM_PRICE: i128 = 100;

/// How often a strategy buys.
#[derive(Clone, Copy, Debug, PartialEq, Eq, Structural)]
pub enum DCAFrequency {
    Daily,
    Weekly,
    Biweekly,
    Monthly,
    /// Every `.0` seconds.
    Custom(u64),
}

#[derive(Clone, Copy, Debug, PartialEq, Eq, Structural)]
pub enum DCAStatus {
    Active,
    Paused,
    Completed,
}

/// One purchase.
#[derive(Clone, Copy, Debug, PartialEq, Eq, Structural)]
pub struct DCAPurchase {
    pub timestamp: u64,
    pub amount_invested: i128,
    pub asset_acquired: i128,
    pub price: i128,
}

/// A strategy and its running totals.
#[derive(Debug)]
pub struct DCAStrategy {
    pub user: AccountId,
    pub asset_pair: u32,
    pub purchase_amount: i128,
    pub frequency: DCAFrequency,
    pub start_time: u64,
    /// 0 when there is no end.
    pub end_time: u64,
    pub last_purchase: u64,
    pub total_invested: i128,
    pub total_amount_acquired: i128,
    pub average_entry_price: i128,
    pub purchases: Vec<DCAPurchase>,
    pub status: DCAStatus,
}

/// A strategy as a value.
pub struct DcaView {
    pub user: AccountId,
    pub asset_pair: u32,
    pub purchase_amount: i128,
    pub frequency: DCAFrequency,
    pub start_time: u64,
    pub end_time: u64,
    pub last_purchase: u64,
    pub total_invested: i128,
    pub total_amount_acquired: i128,
    pub average_entry_price: i128,
    pub purchases: Seq<DCAPurchase>,
    pub status: DCAStatus,
}

impl DCAStrategy {
    pub open spec fn view(&self) -> DcaView {
        DcaView {
            user: self.user,
            asset_pair: self.asset_pair,
            purchase_amount: self.purchase_amount,
            frequency: self.frequency,
            start_time: self.start_time,
            end_time: self.end_time,
            last_purchase: self.last_purchase,
            total_invested: self.total_invested,
            total_amount_acquired: self.total_amount_acquired,
            average_entry_price: self.average_entry_price,
            purchases: self.purchases@,
            status: self.status,
        }
    }

    pub fn duplicate(&self) -> (r: Self)
        ensures
            r@ == self@,
    {
        DCAStrategy {
            user: self.user,
            asset_pair: self.asset_pair,
            purchase_amount: self.purchase_amount,
            frequency: self.frequency,
            start_time: self.start_time,
            end_time: self.end_time,
            last_purchase: self.last_purchase,
            total_invested: self.total_invested,
            total_amount_acquired: self.total_amount_acquired,
            average_entry_price: self.average_entry_price,
            purchases: self.purchases.clone(),
            status: self.status,
        }
    }
}

/// A performance report.
#[derive(Clone, Copy, Debug, PartialEq, Eq, Structural)]
pub struct DCAPerformance {
    pub total_invested: i128,
    pub current_value: i128,
    pub unrealized_pnl: i128,
    pub unrealized_pnl_pct: i32,
    pub average_entry_price: i128,
    pub current_price: i128,
    pub price_diff_pct: i32,
    pub total_purchases: u32,
    pub consistency_pct: u32,
}

/// The book's persistent slots.
#[derive(Clone, Copy, Debug, PartialEq, Eq, Structural)]
pub enum DCAKey {
    Strategy(u64),
    NextId,
    ActiveIds,
}

/// Seconds between purchases.
pub open spec fn interval_of(f: DCAFrequency) -> u64 {
    match f {
        DCAFrequency::Daily => 86_400,
        DCAFrequency::Weekly => 604_800,
        DCAFrequency::Biweekly => 1_209_600,
        DCAFrequency::Monthly => 2_592_000,
        DCAFrequency::Custom(s) => s,
    }
}

pub fn interval_secs(freq: DCAFrequency) -> (r: u64)
    ensures
        r == interval_of(freq),
{
    match freq {
        DCAFrequency::Daily => 86_400,
        DCAFrequency::Weekly => 604_800,
        DCAFrequency::Biweekly => 1_209_600,
        DCAFrequency::Monthly => 2_592_000,
        DCAFrequency::Custom(interval_seconds) => interval_seconds,
    }
}

/// The purchases that should have happened by `now`: whole intervals since
/// the start (0 with a zero interval), truncated to 32 bits.
pub open spec fn expected_purchases(v: DcaView, now: u64) -> u32 {
    let elapsed = if now >= v.start_time { now - v.start_time } else { 0 };
    if interval_of(v.frequency) == 0 { 0 } else { (elapsed / (interval_of(v.frequency) as int)) as u32 }
}

/// Whether a purchase is due at `now`.
pub open spec fn due(v: DcaView, now: u64) -> bool {
    &&& v.status == DCAStatus::Active
    &&& !(v.end_time != 0 && now >= v.end_time)
    &&& now >= (if v.last_purchase == 0 { v.start_time as int } else { v.last_purchase + interval_of(v.frequency) })
}

/// The value at `k` of a map, or `dflt`.
pub open spec fn value_or(m: Map<u128, i128>, k: u128, dflt: i128) -> i128 {
    if m.contains_key(k) { m[k] } else { dflt }
}

/// The strategy after a purchase at `price`.
pub open spec fn after_purchase(v: DcaView, price: i128, now: u64) -> DcaView {
    let acquired = tdiv(v.purchase_amount * PRECISION as int, price as int);
    let invested = v.total_invested + v.purchase_amount;
    let held = v.total_amount_acquired + acquired;
    DcaView {
        total_invested: invested as i128,
        total_amount_acquired: held as i128,
        average_entry_price: tdiv(invested * PRECISION as int, held) as i128,
        last_purchase: now,
        purchases: v.purchases.push(DCAPurchase {
            timestamp: now,
            amount_invested: v.purchase_amount,
            asset_acquired: acquired as i128,
            price: price,
        }),
        ..v
    }
}

/// The arithmetic of a purchase at `price` stays within `i128` and divides
/// by nonzero amounts.
pub open spec fn purchase_fits(v: DcaView, price: i128) -> bool {
    let acquired = tdiv(v.purchase_amount * PRECISION as int, price as int);
    let invested = v.total_invested + v.purchase_amount;
    let held = v.total_amount_acquired + acquired;
    &&& price != 0
    &&& in_i128(v.purchase_amount * PRECISION)
    &&& !(v.purchase_amount * PRECISION == i128::MIN && price == -1)
    &&& in_i128(invested)
    &&& in_i128(held)
    &&& in_i128(invested * PRECISION)
    &&& held != 0
    &&& !(invested * PRECISION == i128::MIN && held == -1)
}

/// Dollar-cost-averaging strategies, the active list, and the prices and
/// balances that purchases are made with.
pub struct DcaBook {
    pub strategies: OrdMap<DCAStrategy>,
    pub next_id: u64,
    pub active_ids: Vec<u64>,
    pub prices: OrdMap<i128>,
    pub balances: OrdMap<i128>,
}

/// The strategies as values.
pub open spec fn views(m: Map<u128, DCAStrategy>) -> Map<u128, DcaView> {
    m.map_values(|s: DCAStrategy| s@)
}

impl DcaBook {
    pub open spec fn price_of(&self, asset: u32) -> i128 {
        value_or(self.prices@, asset as u128, DEFAULT_SIM_PRICE)
    }

    pub open spec fn balance_of(&self, user: AccountId) -> i128 {
        value_or(self.balances@, user as u128, 0)
    }

    /// What a purchase attempt at `now` leads to: the strategy afterwards
    /// and the outcome.
    pub open spec fn attempt(&self, v: DcaView, now: u64) -> (DcaView, Result<(), AutoTradeError>) {
        if v.status != DCAStatus::Active {
            (v, Err(AutoTradeError::DcaStrategyInactive))
        } else if v.end_time != 0 && now >= v.end_time {
            (DcaView { status: DCAStatus::Completed, ..v }, Err(AutoTradeError::DcaEndTimeReached))
        } else if self.balance_of(v.user) < v.purchase_amount {
            (DcaView { status: DCAStatus::Paused, ..v }, Err(AutoTradeError::InsufficientBalance))
        } else {
            (after_purchase(v, self.price_of(v.asset_pair), now), Ok(()))
        }
    }

    /// Stored ids are below the next id, active ids are stored and listed
    /// once.
    pub open spec fn wf(&self) -> bool {
        &&& forall|k: u128| #[trigger] self.strategies@.contains_key(k) ==> k < self.next_id
        &&& forall|i: int| 0 <= i < self.active_ids@.len() ==> #[trigger] self.strategies@.contains_key(self.active_ids@[i] as u128)
        &&& self.active_ids@.no_duplicates()
    }

    pub fn new() -> (r: Self)
        ensures
            r.wf(),
            r.strategies@ == Map::<u128, DCAStrategy>::empty(),
            r.next_id == 0,
            r.active_ids@ == Seq::<u64>::empty(),
            r.prices@ == Map::<u128, i128>::empty(),
            r.balances@ == Map::<u128, i128>::empty(),
    {
        DcaBook { strategies: OrdMap::new(), next_id: 0, active_ids: Vec::new(), prices: OrdMap::new(), balances: OrdMap::new() }
    }

    /// Sets the price purchases of an asset are made at.
    pub fn set_price(&mut self, asset: u32, price: i128)
        ensures
            final(self).prices@ == old(self).prices@.insert(asset as u128, price),
            final(self).strategies@ == old(self).strategies@,
            final(self).next_id == old(self).next_id,
            final(self).active_ids@ == old(self).active_ids@,
            final(self).balances@ == old(self).balances@,
    {
        self.prices.insert(asset as u128, price);
    }

    /// Sets a user's balance available for purchases.
    pub fn set_balance(&mut self, user: AccountId, amount: i128)
        ensures
            final(self).balances@ == old(self).balances@.insert(user as u128, amount),
            final(self).strategies@ == old(self).strategies@,
            final(self).next_id == old(self).next_id,
            final(self).active_ids@ == old(self).active_ids@,
            final(self).prices@ == old(self).prices@,
    {
        self.balances.insert(user as u128, amount);
    }

    pub fn get_balance(&self, user: AccountId) -> (r: i128)
        ensures
            r == self.balance_of(user),
    {
        match self.balances.get(user as u128) {
            Some(b) => *b,
            None => 0,
        }
    }

    /// Buys `amount` of an asset at its price: the amount acquired (scaled
    /// by `PRECISION`) and the price.
    pub fn sim_execute_buy(&self, asset_id: u32, amount: i128) -> (r: Result<(i128, i128), AutoTradeError>)
        requires
            self.price_of(asset_id) != 0,
            in_i128(amount * PRECISION),
            !(amount * PRECISION == i128::MIN && self.price_of(asset_id) == -1),
        ensures
            r == Ok::<(i128, i128), AutoTradeError>((tdiv(amount * PRECISION, self.price_of(asset_id) as int) as i128, self.price_of(asset_id))),
    {
        let price: i128 = match self.prices.get(asset_id as u128) {
            Some(p) => *p,
            None => DEFAULT_SIM_PRICE,
        };
        let acquired = div_toward_zero(amount * PRECISION, price);
        Ok((acquired, price))
    }

    /// A copy of a strategy.
    pub fn get_dca_strategy(&self, id: u64) -> (r: Result<DCAStrategy, AutoTradeError>)
        ensures
            match r {
                Ok(s) => self.strategies@.contains_key(id as u128) && s@ == self.strategies@[id as u128]@,
                Err(e) => !self.strategies@.contains_key(id as u128) && e == AutoTradeError::DcaStrategyNotFound,
            },
    {
        match self.strategies.get(id as u128) {
            Some(s) => Ok(s.duplicate()),
            None => Err(AutoTradeError::DcaStrategyNotFound),
        }
    }
}


/// Whether a purchase attempt completes the strategy (its end is reached).
pub open spec fn completes(v: DcaView, now: u64) -> bool {
    v.status == DCAStatus::Active && v.end_time != 0 && now >= v.end_time
}

/// One strategy of the active list processed at `now`: a due one makes a
/// purchase attempt, and its id is reported when the purchase succeeds.
pub open spec fn due_step(b: DcaBook, strats: Map<u128, DcaView>, executed: Seq<u64>, id: u64, now: u64)
    -> (Map<u128, DcaView>, Seq<u64>) {
    if strats.contains_key(id as u128) && due(strats[id as u128], now) {
        let (v2, res) = b.attempt(strats[id as u128], now);
        (strats.insert(id as u128, v2), if res is Ok { executed.push(id) } else { executed })
    } else {
        (strats, executed)
    }
}

/// The first `k` ids of `ids` processed in order.
pub open spec fn due_run(b: DcaBook, strats: Map<u128, DcaView>, ids: Seq<u64>, k: int, now: u64) -> (Map<u128, DcaView>, Seq<u64>)
    decreases k,
{
    if k <= 0 {
        (strats, Seq::empty())
    } else {
        let prev = due_run(b, strats, ids, k - 1, now);
        due_step(b, prev.0, prev.1, ids[k - 1], now)
    }
}

/// `n` purchase attempts in a row at `now`, stopping at the first failure:
/// the strategy afterwards, the outcome, and whether one of them completed
/// the strategy.
pub open spec fn repeat_attempt(b: DcaBook, v: DcaView, n: nat, now: u64) -> (DcaView, Result<(), AutoTradeError>, bool)
    decreases n,
{
    if n == 0 {
        (v, Ok(()), false)
    } else {
        let prev = repeat_attempt(b, v, (n - 1) as nat, now);
        if prev.1 is Err {
            prev
        } else {
            let (v2, r2) = b.attempt(prev.0, now);
            (v2, r2, prev.2 || completes(prev.0, now))
        }
    }
}

/// Every purchase that `n` attempts in a row would make fits.
pub open spec fn repeat_fits(b: DcaBook, v: DcaView, n: nat, now: u64) -> bool
    decreases n,
{
    if n == 0 {
        true
    } else {
        let prev = repeat_attempt(b, v, (n - 1) as nat, now);
        &&& repeat_fits(b, v, (n - 1) as nat, now)
        &&& (prev.1 is Ok && prev.0.status == DCAStatus::Active && !(prev.0.end_time != 0 && now >= prev.0.end_time)
            && b.balance_of(prev.0.user) >= prev.0.purchase_amount) ==> purchase_fits(prev.0, b.price_of(prev.0.asset_pair))
    }
}

/// The performance of a strategy at `now`.
pub open spec fn performance(v: DcaView, price: i128, now: u64) -> DCAPerformance {
    let value = tdiv(v.total_amount_acquired * price, PRECISION as int);
    let pnl = value - v.total_invested;
    let expected = expected_purchases(v, now);
    DCAPerformance {
        total_invested: v.total_invested,
        current_value: value as i128,
        unrealized_pnl: pnl as i128,
        unrealized_pnl_pct: if v.total_invested > 0 { tdiv(pnl * 10_000, v.total_invested as int) as i32 } else { 0 },
        average_entry_price: v.average_entry_price,
        current_price: price,
        price_diff_pct: if v.average_entry_price > 0 {
            tdiv((price - v.average_entry_price) * 10_000, v.average_entry_price as int) as i32
        } else { 0 },
        total_purchases: v.purchases.len() as u32,
        consistency_pct: if expected > 0 { ((v.purchases.len() as int * 10_000) / (expected as int)) as u32 } else { 10_000 },
    }
}

/// The arithmetic of a performance report stays within its types.
pub open spec fn performance_fits(v: DcaView, price: i128) -> bool {
    let value = tdiv(v.total_amount_acquired * price, PRECISION as int);
    &&& in_i128(v.total_amount_acquired * price)
    &&& in_i128(value - v.total_invested)
    &&& in_i128((value - v.total_invested) * 10_000)
    &&& in_i128(price - v.average_entry_price)
    &&& in_i128((price - v.average_entry_price) * 10_000)
    &&& v.purchases.len() * 10_000 <= u32::MAX
}

impl DcaBook {
    fn next_id(&mut self) -> (id: u64)
        requires
            old(self).next_id < u64::MAX,
        ensures
            id == old(self).next_id,
            final(self).next_id == id + 1,
            final(self).strategies@ == old(self).strategies@,
            final(self).active_ids@ == old(self).active_ids@,
            final(self).prices@ == old(self).prices@,
            final(self).balances@ == old(self).balances@,
    {
        let id = self.next_id;
        self.next_id = id + 1;
        id
    }

    /// Takes an id off the active list.
    fn remove_active_id(&mut self, target: u64)
        requires
            old(self).active_ids@.no_duplicates(),
        ensures
            final(self).active_ids@ == old(self).active_ids@.filter(|x: u64| x != target),
            final(self).active_ids@.no_duplicates(),
            forall|i: int| 0 <= i < final(self).active_ids@.len() ==> old(self).active_ids@.contains(#[trigger] final(self).active_ids@[i]),
            final(self).strategies@ == old(self).strategies@,
            final(self).next_id == old(self).next_id,
            final(self).prices@ == old(self).prices@,
            final(self).balances@ == old(self).balances@,
    {
        let ghost ids0 = self.active_ids@;
        let mut updated: Vec<u64> = Vec::new();
        let mut i: usize = 0;
        while i < self.active_ids.len()
            invariant
                i <= self.active_ids@.len(),
                self.active_ids@ == ids0,
                ids0.no_duplicates(),
                updated@ == ids0.take(i as int).filter(|x: u64| x != target),
                updated@.no_duplicates(),
                forall|k: int| #![trigger updated@[k]] 0 <= k < updated@.len() ==> exists|j: int| 0 <= j < i && #[trigger] ids0[j] == updated@[k],
            decreases self.active_ids@.len() - i,
        {
            proof {
                assert(ids0.take(i as int + 1).drop_last() =~= ids0.take(i as int));
                reveal(Seq::filter);
            }
            let v = self.active_ids[i];
            if v != target {
                proof {
                    assert forall|k: int| 0 <= k < updated@.len() implies updated@[k] != v by {
                        let j = choose|j: int| 0 <= j < i && #[trigger] ids0[j] == updated@[k];
                        assert(ids0[j] != ids0[i as int]);
                    }
                }
                updated.push(v);
                proof {
                    assert forall|k: int| #![trigger updated@[k]] 0 <= k < updated@.len() implies exists|j: int| 0 <= j < i + 1 && #[trigger] ids0[j] == updated@[k] by {
                        if k == updated@.len() - 1 {
                            assert(ids0[i as int] == updated@[k]);
                        } else {
                            let j = choose|j: int| 0 <= j < i && #[trigger] ids0[j] == updated@[k];
                            assert(ids0[j] == updated@[k]);
                        }
                    }
                }
            }
            i = i + 1;
        }
        proof {
            assert(ids0.take(ids0.len() as int) =~= ids0);
            assert forall|k: int| 0 <= k < updated@.len() implies ids0.contains(#[trigger] updated@[k]) by {
                let j = choose|j: int| 0 <= j < ids0.len() && #[trigger] ids0[j] == updated@[k];
                assert(ids0[j] == updated@[k]);
            }
        }
        self.active_ids = updated;
    }

    /// Creates an active strategy starting `now`, ending after
    /// `duration_days` days when given; returns its id.
    pub fn create_dca_strategy(&mut self, user: AccountId, asset_pair: u32, purchase_amount: i128, frequency: DCAFrequency,
        duration_days: Option<u64>, now: u64) -> (r: Result<u64, AutoTradeError>)
        requires
            old(self).wf(),
            purchase_amount > 0 ==> old(self).next_id < u64::MAX,
            purchase_amount > 0 ==> (duration_days matches Some(d) ==> now + d * 86_400 <= u64::MAX),
        ensures
            final(self).wf(),
            final(self).prices@ == old(self).prices@,
            final(self).balances@ == old(self).balances@,
            purchase_amount <= 0 ==> r == Err::<u64, AutoTradeError>(AutoTradeError::InvalidAmount)
                && final(self).strategies@ == old(self).strategies@ && final(self).active_ids@ == old(self).active_ids@
                && final(self).next_id == old(self).next_id,
            purchase_amount > 0 ==> r == Ok::<u64, AutoTradeError>(old(self).next_id),
            r matches Ok(id) ==> {
                &&& final(self).next_id == id + 1
                &&& final(self).active_ids@ == old(self).active_ids@.push(id)
                &&& views(final(self).strategies@) == views(old(self).strategies@).insert(id as u128, DcaView {
                    user: user, asset_pair: asset_pair, purchase_amount: purchase_amount, frequency: frequency,
                    start_time: now,
                    end_time: match duration_days { Some(d) => (now + d * 86_400) as u64, None => 0 },
                    last_purchase: 0, total_invested: 0, total_amount_acquired: 0, average_entry_price: 0,
                    purchases: Seq::empty(), status: DCAStatus::Active,
                })
            },
    {
        if purchase_amount <= 0 {
            return Err(AutoTradeError::InvalidAmount);
        }
        let end_time = match duration_days {
            Some(d) => now + d * 86_400,
            None => 0,
        };
        let id = self.next_id();
        let strategy = DCAStrategy {
            user: user, asset_pair: asset_pair, purchase_amount: purchase_amount, frequency: frequency,
            start_time: now, end_time: end_time, last_purchase: 0, total_invested: 0, total_amount_acquired: 0,
            average_entry_price: 0, purchases: Vec::new(), status: DCAStatus::Active,
        };
        let ghost old_ids = self.active_ids@;
        self.strategies.insert(id as u128, strategy);
        self.active_ids.push(id);
        proof {
            assert(views(self.strategies@) =~= views(old(self).strategies@).insert(id as u128, self.strategies@[id as u128]@));
            assert(!old_ids.contains(id)) by {
                if old_ids.contains(id) {
                    let j = choose|j: int| 0 <= j < old_ids.len() && old_ids[j] == id;
                    assert(old(self).strategies@.contains_key(old_ids[j] as u128));
                }
            }
            assert forall|a: int, c: int| 0 <= a < self.active_ids@.len() && 0 <= c < self.active_ids@.len() && a != c
                implies self.active_ids@[a] != self.active_ids@[c] by {
                if a == old_ids.len() { assert(old_ids[c] != id); }
                else if c == old_ids.len() { assert(old_ids[a] != id); }
            }
            assert forall|i: int| 0 <= i < self.active_ids@.len() implies #[trigger] self.strategies@.contains_key(self.active_ids@[i] as u128) by {
                if i < old_ids.len() { assert(old(self).strategies@.contains_key(old_ids[i] as u128)); }
            }
        }
        Ok(id)
    }

    /// Whether a purchase is due at `now`.
    pub fn is_purchase_due(&self, id: u64, now: u64) -> (r: Result<bool, AutoTradeError>)
        ensures
            match r {
                Ok(b) => self.strategies@.contains_key(id as u128) && b == due(self.strategies@[id as u128]@, now),
                Err(e) => !self.strategies@.contains_key(id as u128) && e == AutoTradeError::DcaStrategyNotFound,
            },
    {
        let s = match self.strategies.get(id as u128) {
            Some(s) => s,
            None => return Err(AutoTradeError::DcaStrategyNotFound),
        };
        if s.status != DCAStatus::Active {
            return Ok(false);
        }
        if s.end_time != 0 && now >= s.end_time {
            return Ok(false);
        }
        if s.last_purchase == 0 {
            Ok(now >= s.start_time)
        } else {
            let next = s.last_purchase as u128 + interval_secs(s.frequency) as u128;
            Ok(now as u128 >= next)
        }
    }
}


impl DcaBook {
    /// Whether a purchase attempt on a stored strategy would fit.
    pub open spec fn attempt_fits(&self, id: u64, now: u64) -> bool {
        self.strategies@.contains_key(id as u128) ==> {
            let v = self.strategies@[id as u128]@;
            (v.status == DCAStatus::Active && !(v.end_time != 0 && now >= v.end_time) && self.balance_of(v.user) >= v.purchase_amount)
                ==> purchase_fits(v, self.price_of(v.asset_pair))
        }
    }

    /// A purchase attempt at `now` (see `attempt`): an inactive strategy is
    /// refused; one past its end is completed and leaves the active list;
    /// one without the funds is paused; otherwise the purchase is made.
    pub fn execute_dca_purchase(&mut self, id: u64, now: u64) -> (r: Result<(), AutoTradeError>)
        requires
            old(self).wf(),
            old(self).attempt_fits(id, now),
        ensures
            final(self).wf(),
            final(self).prices@ == old(self).prices@,
            final(self).balances@ == old(self).balances@,
            final(self).next_id == old(self).next_id,
            !old(self).strategies@.contains_key(id as u128) ==> r == Err::<(), AutoTradeError>(AutoTradeError::DcaStrategyNotFound)
                && final(self).strategies@ == old(self).strategies@ && final(self).active_ids@ == old(self).active_ids@,
            old(self).strategies@.contains_key(id as u128) ==> {
                let v = old(self).strategies@[id as u128]@;
                &&& r == old(self).attempt(v, now).1
                &&& views(final(self).strategies@) == views(old(self).strategies@).insert(id as u128, old(self).attempt(v, now).0)
                &&& final(self).active_ids@ == (if completes(v, now) { old(self).active_ids@.filter(|x: u64| x != id) } else { old(self).active_ids@ })
            },
    {
        let mut s = match self.strategies.remove(id as u128) {
            Some(s) => s,
            None => return Err(AutoTradeError::DcaStrategyNotFound),
        };
        let ghost v = s@;
        let ghost m0 = old(self).strategies@;
        if s.status != DCAStatus::Active {
            self.strategies.insert(id as u128, s);
            proof { assert(self.strategies@ =~= m0); assert(views(self.strategies@) =~= views(m0).insert(id as u128, v)); }
            return Err(AutoTradeError::DcaStrategyInactive);
        }
        if s.end_time != 0 && now >= s.end_time {
            s.status = DCAStatus::Completed;
            self.strategies.insert(id as u128, s);
            proof { assert(views(self.strategies@) =~= views(m0).insert(id as u128, self.strategies@[id as u128]@)); }
            self.remove_active_id(id);
            return Err(AutoTradeError::DcaEndTimeReached);
        }
        let balance = self.get_balance(s.user);
        if balance < s.purchase_amount {
            s.status = DCAStatus::Paused;
            self.strategies.insert(id as u128, s);
            proof { assert(views(self.strategies@) =~= views(m0).insert(id as u128, self.strategies@[id as u128]@)); }
            return Err(AutoTradeError::InsufficientBalance);
        }
        let (acquired, price) = match self.sim_execute_buy(s.asset_pair, s.purchase_amount) {
            Ok(x) => x,
            Err(e) => {
                self.strategies.insert(id as u128, s);
                return Err(e);
            },
        };
        s.total_invested = s.total_invested + s.purchase_amount;
        s.total_amount_acquired = s.total_amount_acquired + acquired;
        s.average_entry_price = div_toward_zero(s.total_invested * PRECISION, s.total_amount_acquired);
        s.last_purchase = now;
        s.purchases.push(DCAPurchase { timestamp: now, amount_invested: s.purchase_amount, asset_acquired: acquired, price: price });
        self.strategies.insert(id as u128, s);
        proof { assert(views(self.strategies@) =~= views(m0).insert(id as u128, self.strategies@[id as u128]@)); }
        Ok(())
    }

    /// Makes the purchases that are due at `now`, over the active list in
    /// order (see `due_step`); returns the ids whose purchase succeeded.
    pub fn execute_due_dca_purchases(&mut self, now: u64) -> (r: Vec<u64>)
        requires
            old(self).wf(),
            forall|i: int| 0 <= i < old(self).active_ids@.len() ==> #[trigger] old(self).attempt_fits(old(self).active_ids@[i], now),
        ensures
            final(self).wf(),
            final(self).prices@ == old(self).prices@,
            final(self).balances@ == old(self).balances@,
            final(self).next_id == old(self).next_id,
            final(self).active_ids@ == old(self).active_ids@,
            (views(final(self).strategies@), r@) == due_run(*old(self), views(old(self).strategies@), old(self).active_ids@,
                old(self).active_ids@.len() as int, now),
    {
        let ids = self.active_ids.clone();
        let ghost b0 = *old(self);
        let ghost m0 = views(old(self).strategies@);
        proof { assert(ids@ =~= b0.active_ids@); }
        let mut executed: Vec<u64> = Vec::new();
        let mut i: usize = 0;
        while i < ids.len()
            invariant
                i <= ids@.len(),
                ids@ == b0.active_ids@,
                b0.wf(),
                self.wf(),
                self.active_ids@ == b0.active_ids@,
                self.prices@ == b0.prices@,
                self.balances@ == b0.balances@,
                self.next_id == b0.next_id,
                m0 == views(b0.strategies@),
                (views(self.strategies@), executed@) == due_run(b0, m0, ids@, i as int, now),
                forall|j: int| #![trigger ids@[j]] i <= j < ids@.len() ==> self.strategies@.contains_key(ids@[j] as u128)
                    && self.strategies@[ids@[j] as u128]@ == b0.strategies@[ids@[j] as u128]@,
                forall|j: int| 0 <= j < ids@.len() ==> #[trigger] b0.attempt_fits(ids@[j], now),
            decreases ids@.len() - i,
        {
            let id = ids[i];
            let ghost before = self.strategies@;
            proof {
                assert(self.strategies@.contains_key(id as u128));
                assert(b0.attempt_fits(id, now));
                assert(self.strategies@[id as u128]@ == b0.strategies@[id as u128]@);
                assert(self.attempt_fits(id, now));
            }
            let is_due = match self.is_purchase_due(id, now) {
                Ok(b) => b,
                Err(_) => false,
            };
            if is_due {
                let res = self.execute_dca_purchase(id, now);
                proof {
                    let v = before[id as u128]@;
                    assert(!completes(v, now));
                }
                if res.is_ok() {
                    executed.push(id);
                }
            }
            proof {
                assert(views(before)[id as u128] == before[id as u128]@);
                assert forall|j: int| #![trigger ids@[j]] i + 1 <= j < ids@.len() implies self.strategies@.contains_key(ids@[j] as u128)
                    && self.strategies@[ids@[j] as u128]@ == b0.strategies@[ids@[j] as u128]@ by {
                    assert(ids@[j] != ids@[i as int]);
                    assert(b0.strategies@.contains_key(ids@[j] as u128));
                    assert(views(self.strategies@).contains_key(ids@[j] as u128));
                    assert(views(self.strategies@)[ids@[j] as u128] == views(before)[ids@[j] as u128]);
                }
            }
            i = i + 1;
        }
        executed
    }
}


/// A new amount that is given and not positive.
pub open spec fn nonpositive(a: Option<i128>) -> bool {
    match a {
        Some(x) => x <= 0,
        None => false,
    }
}

/// The purchases that should have happened by `now`.
pub fn calculate_expected_purchases(s: &DCAStrategy, now: u64) -> (r: u32)
    ensures
        r == expected_purchases(s@, now),
{
    let elapsed = now.saturating_sub(s.start_time);
    let interval = interval_secs(s.frequency);
    if interval == 0 {
        return 0;
    }
    let q = elapsed / interval;
    #[verifier::truncate] (q as u32)
}

impl DcaBook {
    /// Makes up for the purchases missed by `now`: as many attempts as
    /// expected purchases exceed those made, stopping at the first failure;
    /// returns how many were missed.
    pub fn handle_missed_dca_purchases(&mut self, id: u64, now: u64) -> (r: Result<u32, AutoTradeError>)
        requires
            old(self).wf(),
            old(self).strategies@.contains_key(id as u128) ==> {
                let v = old(self).strategies@[id as u128]@;
                let exp = expected_purchases(v, now) as int;
                exp > v.purchases.len() ==> repeat_fits(*old(self), v, (exp - v.purchases.len()) as nat, now)
            },
        ensures
            final(self).wf(),
            final(self).prices@ == old(self).prices@,
            final(self).balances@ == old(self).balances@,
            final(self).next_id == old(self).next_id,
            !old(self).strategies@.contains_key(id as u128) ==> r == Err::<u32, AutoTradeError>(AutoTradeError::DcaStrategyNotFound)
                && final(self).strategies@ == old(self).strategies@ && final(self).active_ids@ == old(self).active_ids@,
            old(self).strategies@.contains_key(id as u128) ==> {
                let v = old(self).strategies@[id as u128]@;
                let exp = expected_purchases(v, now) as int;
                let n = (exp - v.purchases.len()) as nat;
                let out = repeat_attempt(*old(self), v, n, now);
                if exp > v.purchases.len() {
                    &&& r == (match out.1 { Ok(_) => Ok::<u32, AutoTradeError>(n as u32), Err(e) => Err(e) })
                    &&& views(final(self).strategies@) == views(old(self).strategies@).insert(id as u128, out.0)
                    &&& final(self).active_ids@ == (if out.2 { old(self).active_ids@.filter(|x: u64| x != id) } else { old(self).active_ids@ })
                } else {
                    &&& r == Ok::<u32, AutoTradeError>(0)
                    &&& final(self).strategies@ == old(self).strategies@
                    &&& final(self).active_ids@ == old(self).active_ids@
                }
            },
    {
        let (expected, actual) = match self.strategies.get(id as u128) {
            Some(s) => (calculate_expected_purchases(s, now), s.purchases.len()),
            None => return Err(AutoTradeError::DcaStrategyNotFound),
        };
        if (expected as usize) > actual {
            let missed = expected - actual as u32;
            let ghost b0 = *old(self);
            let ghost v = b0.strategies@[id as u128]@;
            let mut k: u32 = 0;
            proof { assert(views(self.strategies@) =~= views(b0.strategies@).insert(id as u128, v)); }
            while k < missed
                invariant
                    k <= missed,
                    missed as int == expected_purchases(v, now) as int - v.purchases.len(),
                    b0 == *old(self),
                    v == b0.strategies@[id as u128]@,
                    b0.strategies@.contains_key(id as u128),
                    repeat_fits(b0, v, missed as nat, now),
                    self.wf(),
                    self.prices@ == b0.prices@,
                    self.balances@ == b0.balances@,
                    self.next_id == b0.next_id,
                    repeat_attempt(b0, v, k as nat, now).1 is Ok,
                    !repeat_attempt(b0, v, k as nat, now).2,
                    self.active_ids@ == b0.active_ids@,
                    self.strategies@.contains_key(id as u128),
                    views(self.strategies@) == views(b0.strategies@).insert(id as u128, repeat_attempt(b0, v, k as nat, now).0),
                decreases missed - k,
            {
                proof {
                    lemma_repeat_fits_prefix(b0, v, missed as nat, (k + 1) as nat, now);
                    assert(views(self.strategies@)[id as u128] == self.strategies@[id as u128]@);
                    assert(self.attempt_fits(id, now));
                }
                let res = self.execute_dca_purchase(id, now);
                match res {
                    Ok(_) => {},
                    Err(e) => {
                        proof {
                            lemma_repeat_stops(b0, v, (k + 1) as nat, missed as nat, now);
                            assert(views(self.strategies@) =~= views(b0.strategies@).insert(id as u128, repeat_attempt(b0, v, (k + 1) as nat, now).0));
                        }
                        return Err(e);
                    },
                }
                k = k + 1;
                proof {
                    assert(views(self.strategies@) =~= views(b0.strategies@).insert(id as u128, repeat_attempt(b0, v, k as nat, now).0));
                    assert(views(self.strategies@).contains_key(id as u128));
                }
            }
            return Ok(missed);
        }
        Ok(0)
    }

    /// Changes the purchase amount and the frequency, each when given; a
    /// new amount must be positive.
    pub fn update_dca_schedule(&mut self, id: u64, new_amount: Option<i128>, new_frequency: Option<DCAFrequency>) -> (r: Result<(), AutoTradeError>)
        requires
            old(self).wf(),
        ensures
            final(self).wf(),
            final(self).prices@ == old(self).prices@,
            final(self).balances@ == old(self).balances@,
            final(self).next_id == old(self).next_id,
            final(self).active_ids@ == old(self).active_ids@,
            !old(self).strategies@.contains_key(id as u128) ==> r == Err::<(), AutoTradeError>(AutoTradeError::DcaStrategyNotFound),
            (old(self).strategies@.contains_key(id as u128) && nonpositive(new_amount)) ==>
                r == Err::<(), AutoTradeError>(AutoTradeError::InvalidAmount),
            r is Err ==> final(self).strategies@ == old(self).strategies@,
            r is Ok <==> (old(self).strategies@.contains_key(id as u128) && !nonpositive(new_amount)),
            r is Ok ==> {
                let v = old(self).strategies@[id as u128]@;
                views(final(self).strategies@) == views(old(self).strategies@).insert(id as u128, DcaView {
                    purchase_amount: match new_amount { Some(a) => a, None => v.purchase_amount },
                    frequency: match new_frequency { Some(f) => f, None => v.frequency },
                    ..v
                })
            },
    {
        let mut s = match self.strategies.remove(id as u128) {
            Some(s) => s,
            None => return Err(AutoTradeError::DcaStrategyNotFound),
        };
        let ghost m0 = old(self).strategies@;
        match new_amount {
            Some(amount) => {
                if amount <= 0 {
                    self.strategies.insert(id as u128, s);
                    proof { assert(self.strategies@ =~= m0); }
                    return Err(AutoTradeError::InvalidAmount);
                }
                s.purchase_amount = amount;
            },
            None => {},
        }
        match new_frequency {
            Some(freq) => { s.frequency = freq; },
            None => {},
        }
        self.strategies.insert(id as u128, s);
        proof { assert(views(self.strategies@) =~= views(m0).insert(id as u128, self.strategies@[id as u128]@)); }
        Ok(())
    }

    /// Sets a strategy's status.
    fn set_status(&mut self, id: u64, status: DCAStatus) -> (r: Result<(), AutoTradeError>)
        requires
            old(self).wf(),
        ensures
            final(self).wf(),
            final(self).prices@ == old(self).prices@,
            final(self).balances@ == old(self).balances@,
            final(self).next_id == old(self).next_id,
            final(self).active_ids@ == old(self).active_ids@,
            !old(self).strategies@.contains_key(id as u128) ==> r == Err::<(), AutoTradeError>(AutoTradeError::DcaStrategyNotFound)
                && final(self).strategies@ == old(self).strategies@,
            old(self).strategies@.contains_key(id as u128) ==> r is Ok && views(final(self).strategies@)
                == views(old(self).strategies@).insert(id as u128, DcaView { status: status, ..old(self).strategies@[id as u128]@ }),
    {
        let mut s = match self.strategies.remove(id as u128) {
            Some(s) => s,
            None => return Err(AutoTradeError::DcaStrategyNotFound),
        };
        s.status = status;
        self.strategies.insert(id as u128, s);
        proof { assert(views(self.strategies@) =~= views(old(self).strategies@).insert(id as u128, self.strategies@[id as u128]@)); }
        Ok(())
    }

    /// Pauses a strategy.
    pub fn pause_dca_strategy(&mut self, id: u64) -> (r: Result<(), AutoTradeError>)
        requires
            old(self).wf(),
        ensures
            final(self).wf(),
            final(self).active_ids@ == old(self).active_ids@,
            !old(self).strategies@.contains_key(id as u128) ==> r == Err::<(), AutoTradeError>(AutoTradeError::DcaStrategyNotFound)
                && final(self).strategies@ == old(self).strategies@,
            old(self).strategies@.contains_key(id as u128) ==> r is Ok && views(final(self).strategies@)
                == views(old(self).strategies@).insert(id as u128, DcaView { status: DCAStatus::Paused, ..old(self).strategies@[id as u128]@ }),
    {
        self.set_status(id, DCAStatus::Paused)
    }

    /// Resumes a strategy.
    pub fn resume_dca_strategy(&mut self, id: u64) -> (r: Result<(), AutoTradeError>)
        requires
            old(self).wf(),
        ensures
            final(self).wf(),
            final(self).active_ids@ == old(self).active_ids@,
            !old(self).strategies@.contains_key(id as u128) ==> r == Err::<(), AutoTradeError>(AutoTradeError::DcaStrategyNotFound)
                && final(self).strategies@ == old(self).strategies@,
            old(self).strategies@.contains_key(id as u128) ==> r is Ok && views(final(self).strategies@)
                == views(old(self).strategies@).insert(id as u128, DcaView { status: DCAStatus::Active, ..old(self).strategies@[id as u128]@ }),
    {
        self.set_status(id, DCAStatus::Active)
    }

    /// A strategy's performance at `now`, valued at the asset's price.
    pub fn analyze_dca_performance(&self, id: u64, now: u64) -> (r: Result<DCAPerformance, AutoTradeError>)
        requires
            self.strategies@.contains_key(id as u128) ==> {
                let v = self.strategies@[id as u128]@;
                performance_fits(v, self.price_of(v.asset_pair))
            },
        ensures
            !self.strategies@.contains_key(id as u128) ==> r == Err::<DCAPerformance, AutoTradeError>(AutoTradeError::DcaStrategyNotFound),
            self.strategies@.contains_key(id as u128) ==> {
                let v = self.strategies@[id as u128]@;
                r == Ok::<DCAPerformance, AutoTradeError>(performance(v, self.price_of(v.asset_pair), now))
            },
    {
        let s = match self.strategies.get(id as u128) {
            Some(s) => s,
            None => return Err(AutoTradeError::DcaStrategyNotFound),
        };
        let current_price: i128 = match self.prices.get(s.asset_pair as u128) {
            Some(p) => *p,
            None => DEFAULT_SIM_PRICE,
        };
        let current_value = div_toward_zero(s.total_amount_acquired * current_price, PRECISION);
        let unrealized_pnl = current_value - s.total_invested;
        let unrealized_pnl_pct: i32 = if s.total_invested > 0 {
            let q = div_toward_zero(unrealized_pnl * 10_000, s.total_invested);
            #[verifier::truncate] (q as i32)
        } else {
            0
        };
        let price_diff_pct: i32 = if s.average_entry_price > 0 {
            let q = div_toward_zero((current_price - s.average_entry_price) * 10_000, s.average_entry_price);
            #[verifier::truncate] (q as i32)
        } else {
            0
        };
        let total_purchases = s.purchases.len() as u32;
        let expected = calculate_expected_purchases(s, now);
        let consistency_pct: u32 = if expected > 0 { (total_purchases * 10_000) / expected } else { 10_000 };
        Ok(DCAPerformance {
            total_invested: s.total_invested,
            current_value: current_value,
            unrealized_pnl: unrealized_pnl,
            unrealized_pnl_pct: unrealized_pnl_pct,
            average_entry_price: s.average_entry_price,
            current_price: current_price,
            price_diff_pct: price_diff_pct,
            total_purchases: total_purchases,
            consistency_pct: consistency_pct,
        })
    }
}

proof fn lemma_repeat_stops(b: DcaBook, v: DcaView, j: nat, m: nat, now: u64)
    requires
        j <= m,
        repeat_attempt(b, v, j, now).1 is Err,
    ensures
        repeat_attempt(b, v, m, now) == repeat_attempt(b, v, j, now),
    decreases m - j,
{
    if j < m {
        lemma_repeat_stops(b, v, j, (m - 1) as nat, now);
    }
}

proof fn lemma_repeat_fits_prefix(b: DcaBook, v: DcaView, n: nat, k: nat, now: u64)
    requires
        repeat_fits(b, v, n, now),
        k <= n,
    ensures
        repeat_fits(b, v, k, now),
    decreases n - k,
{
    if k < n {
        lemma_repeat_fits_prefix(b, v, (n - 1) as nat, k, now);
    }
}

}

verus! {

/// Consistency is the share, in basis points, of the expected purchases
/// that were made: when purchases are expected, `consistency_pct` times the
/// number expected is the largest multiple of it not above ten thousand
/// times the number made, so it falls below 10_000 whenever fewer purchases
/// were made than expected; with none expected it is 10_000.
pub proof fn law_consistency_counts_purchases(v: DcaView, price: i128, now: u64)
    requires
        performance_fits(v, price),
    ensures
        ({
            let made = v.purchases.len() as int;
            let expected = expected_purchases(v, now) as int;
            let c = performance(v, price, now).consistency_pct as int;
            &&& expected > 0 ==> c * expected <= made * 10_000 < (c + 1) * expected
            &&& expected > 0 && made < expected ==> c < 10_000
            &&& expected > 0 && made >= expected ==> c >= 10_000
            &&& expected == 0 ==> c == 10_000
        }),
{
    let made = v.purchases.len() as int;
    let expected = expected_purchases(v, now) as int;
    if expected > 0 {
        let q = (made * 10_000) / expected;
        assert(0 <= q <= made * 10_000) by (nonlinear_arith)
            requires q == (made * 10_000) / expected, expected > 0, made >= 0;
        assert(performance(v, price, now).consistency_pct as int == q);
        assert(q * expected <= made * 10_000 < (q + 1) * expected) by (nonlinear_arith)
            requires q == (made * 10_000) / expected, expected > 0, made >= 0;
        if made < expected {
            assert(q < 10_000) by (nonlinear_arith)
                requires q * expected <= made * 10_000, made < expected, expected > 0;
        } else {
            assert(q >= 10_000) by (nonlinear_arith)
                requires made * 10_000 < (q + 1) * expected, made >= expected, expected > 0;
        }
    }
}

}

verus! {

/// A performance report counts the purchases made, values the holding at
/// the current price and reports as profit that value less what was invested.
pub proof fn law_performance_profit_is_value_less_invested(v: DcaView, price: i128, now: u64)
    requires
        performance_fits(v, price),
    ensures
        ({
            let p = performance(v, price, now);
            &&& p.total_purchases as int == v.purchases.len()
            &&& p.current_price == price
            &&& p.total_invested == v.total_invested
            &&& p.unrealized_pnl == p.current_value - v.total_invested
        }),
{
    let value = tdiv(v.total_amount_acquired * price, PRECISION as int);
    assert(in_i128(value)) by {
        assert(in_i128(v.total_amount_acquired * price));
    }
}

}
