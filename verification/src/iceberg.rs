//! Iceberg orders: only a slice of the order is shown at a time and is
//! replenished from the hidden remainder as it fills.
use vstd::prelude::*;
use crate::math::{in_i128, tdiv, min, div_toward_zero};
use crate::store::OrdMap;
use crate::AccountId;

verus! {

/// A traded pair of assets, by symbol.
#[derive(Clone, Debug, PartialEq, Eq)]
pub struct AssetPair {
    pub base: String,
    pub quote: String,
}

impl AssetPair {
    /// A field-by-field copy.
    pub fn duplicate(&self) -> (r: Self)
        ensures
            r == *self,
    {
        AssetPair { base: self.base.clone(), quote: self.quote.clone() }
    }
}

/// Order side (buy or sell).
#[derive(Clone, Copy, Debug, PartialEq, Eq, Structural)]
pub enum OrderSide {
    Buy,
    Sell,
}

/// Order status.
#[derive(Clone, Copy, Debug, PartialEq, Eq, Structural)]
pub enum OrderStatus {
    Active,
    PartiallyFilled,
    Filled,
    Cancelled,
    Failed,
}

/// An iceberg order: `total_amount` in all, shown `visible_amount` at a time.
#[derive(Debug)]
pub struct IcebergOrder {
    pub id: u64,
    pub user: AccountId,
    pub pair: AssetPair,
    pub side: OrderSide,
    pub total_amount: i128,
    pub visible_amount: i128,
    pub price: i128,
    pub filled_amount: i128,
    pub current_visible_filled: i128,
    pub status: OrderStatus,
    pub created_at: u64,
    pub avg_fill_price: i128,
}

impl IcebergOrder {
    /// A field-by-field copy.
    pub fn duplicate(&self) -> (r: Self)
        ensures
            r == *self,
    {
        IcebergOrder {
            id: self.id,
            user: self.user,
            pair: self.pair.duplicate(),
            side: self.side,
            total_amount: self.total_amount,
            visible_amount: self.visible_amount,
            price: self.price,
            filled_amount: self.filled_amount,
            current_visible_filled: self.current_visible_filled,
            status: self.status,
            created_at: self.created_at,
            avg_fill_price: self.avg_fill_price,
        }
    }
}

/// What anyone may see of an order: the total stays hidden.
#[derive(Debug)]
pub struct PublicOrderView {
    pub id: u64,
    pub pair: AssetPair,
    pub side: OrderSide,
    pub price: i128,
    pub visible_amount: i128,
}

/// What the owner sees of an order.
#[derive(Debug)]
pub struct FullOrderView {
    pub id: u64,
    pub pair: AssetPair,
    pub side: OrderSide,
    pub price: i128,
    pub total_amount: i128,
    pub visible_amount: i128,
    pub filled_amount: i128,
    pub remaining_amount: i128,
    pub status: OrderStatus,
    pub avg_fill_price: i128,
}

/// The state of an order when it was cancelled.
#[derive(Clone, Copy, Debug, PartialEq, Eq, Structural)]
pub struct CancellationInfo {
    pub filled_amount: i128,
    pub remaining_amount: i128,
    pub avg_fill_price: i128,
}

/// One fill of an order, with the running total filled.
#[derive(Clone, Copy, Debug, PartialEq, Eq, Structural)]
pub struct FillEvent {
    pub order_id: u64,
    pub filled_amount: i128,
    pub price: i128,
    pub total_filled: i128,
}

/// The book's persistent slots.
#[derive(Clone, Copy, Debug, PartialEq, Eq, Structural)]
pub enum IcebergStorageKey {
    OrderCounter,
    IcebergOrder(u64),
    SdexToIceberg(u64),
    CurrentSdexOrder(u64),
    FillHistory(u64),
}

/// Largest visible share, in basis points (50%).
pub const MAX_VISIBLE_PCT: u32 = 5000;
/// Smallest visible slice.
pub const MIN_VISIBLE_AMOUNT: i128 = 1000;
pub const BASIS_POINTS: i128 = 10000;

/// The slice shown for a total and a visible share in basis points.
pub open spec fn visible_slice(total: int, visible_pct: int) -> int {
    (total * visible_pct) / 10000
}

/// The exchange order id handed out for a slice placed at `now`: the
/// timestamp plus amount plus price, truncated to 64 bits.
pub open spec fn sdex_id(now: u64, amount: int, price: int) -> u64 {
    (now + amount + price) as u64
}

/// Places a limit order for a slice on the exchange and returns its id.
fn place_sdex_limit_order(now: u64, amount: i128, price: i128) -> (r: u64)
    requires
        in_i128(now + amount),
        in_i128(now + amount + price),
    ensures
        r == sdex_id(now, amount as int, price as int),
{
    let total: i128 = now as i128 + amount + price;
    #[verifier::truncate] (total as u64)
}

/// Running total of a fill history: that of its last entry, 0 when empty.
pub open spec fn history_total(h: Seq<FillEvent>) -> int {
    if h.len() == 0 { 0 } else { h.last().total_filled as int }
}

/// An order as stored after its fields change.
pub open spec fn with_progress(o: IcebergOrder, filled: int, cvf: int, avg: int, status: OrderStatus) -> IcebergOrder {
    IcebergOrder {
        id: o.id,
        user: o.user,
        pair: o.pair,
        side: o.side,
        total_amount: o.total_amount,
        visible_amount: o.visible_amount,
        price: o.price,
        filled_amount: filled as i128,
        current_visible_filled: cvf as i128,
        status: status,
        created_at: o.created_at,
        avg_fill_price: avg as i128,
    }
}

/// The value-weighted average fill price after a fill.
pub open spec fn avg_after_fill(o: IcebergOrder, amount: int, price: int) -> int {
    tdiv(o.avg_fill_price * o.filled_amount + price * amount, o.filled_amount + amount)
}

/// Whether a fill exhausts the slice on show.
pub open spec fn slice_exhausted(o: IcebergOrder, amount: int) -> bool {
    o.current_visible_filled + amount >= o.visible_amount
}

/// What is left of the order after a fill.
pub open spec fn remaining_after(o: IcebergOrder, amount: int) -> int {
    o.total_amount - (o.filled_amount + amount)
}

/// Whether a fill leads to a new slice being shown.
pub open spec fn replenishes(o: IcebergOrder, amount: int) -> bool {
    slice_exhausted(o, amount) && remaining_after(o, amount) > 0
}

/// The next slice shown after a fill that exhausts the current one.
pub open spec fn next_slice(o: IcebergOrder, amount: int) -> int {
    min(remaining_after(o, amount), o.visible_amount as int)
}

/// The order after a fill of `amount` at `price`.
pub open spec fn order_after_fill(o: IcebergOrder, amount: int, price: int) -> IcebergOrder {
    let filled = o.filled_amount + amount;
    let avg = avg_after_fill(o, amount, price);
    if slice_exhausted(o, amount) {
        if remaining_after(o, amount) > 0 {
            with_progress(o, filled, 0, avg, OrderStatus::PartiallyFilled)
        } else {
            with_progress(o, filled, o.current_visible_filled + amount, avg, OrderStatus::Filled)
        }
    } else {
        with_progress(o, filled, o.current_visible_filled + amount, avg,
            if filled > 0 { OrderStatus::PartiallyFilled } else { o.status })
    }
}

/// The arithmetic of a fill stays within `i128` (the cases in which the
/// fill would overflow or divide by zero are left out).
pub open spec fn fill_fits(o: IcebergOrder, amount: int, price: int, now: u64) -> bool {
    let filled = o.filled_amount + amount;
    let value = o.avg_fill_price * o.filled_amount + price * amount;
    &&& in_i128(filled)
    &&& in_i128(o.current_visible_filled + amount)
    &&& in_i128(o.avg_fill_price * o.filled_amount)
    &&& in_i128(price * amount)
    &&& in_i128(value)
    &&& filled != 0
    &&& !(value == i128::MIN && filled == -1)
    &&& in_i128(remaining_after(o, amount))
    &&& (replenishes(o, amount) ==> in_i128(now + next_slice(o, amount) + o.price))
}

/// Whether an order is one of the user's open orders.
pub open spec fn open_order_of(o: IcebergOrder, user: AccountId) -> bool {
    o.user == user && (o.status == OrderStatus::Active || o.status == OrderStatus::PartiallyFilled)
}

/// The user's open orders among ids `1..=n`, ascending.
pub open spec fn open_ids_upto(m: Map<u128, IcebergOrder>, user: AccountId, n: nat) -> Seq<u64>
    decreases n,
{
    if n == 0 {
        Seq::empty()
    } else {
        let prev = open_ids_upto(m, user, (n - 1) as nat);
        if m.contains_key(n as u128) && open_order_of(m[n as u128], user) {
            prev.push(n as u64)
        } else {
            prev
        }
    }
}

/// At most the first `limit` entries of `s`.
pub open spec fn first_upto<A>(s: Seq<A>, limit: int) -> Seq<A> {
    if s.len() <= limit { s } else { s.take(limit) }
}

proof fn lemma_open_ids_prefix(m: Map<u128, IcebergOrder>, user: AccountId, j: nat, k: nat)
    requires
        j <= k,
    ensures
        open_ids_upto(m, user, j).len() <= open_ids_upto(m, user, k).len(),
        open_ids_upto(m, user, j) == open_ids_upto(m, user, k).take(open_ids_upto(m, user, j).len() as int),
    decreases k - j,
{
    if j < k {
        lemma_open_ids_prefix(m, user, j, (k - 1) as nat);
        let a = open_ids_upto(m, user, j);
        let b = open_ids_upto(m, user, (k - 1) as nat);
        let c = open_ids_upto(m, user, k);
        assert(c.take(b.len() as int) =~= b);
        assert(c.take(a.len() as int) =~= b.take(a.len() as int));
    } else {
        assert(open_ids_upto(m, user, j).take(open_ids_upto(m, user, j).len() as int) =~= open_ids_upto(m, user, j));
    }
}

/// All iceberg orders, the exchange orders that show them, and their fills.
pub struct IcebergBook {
    pub orders: OrdMap<IcebergOrder>,
    pub sdex_to_iceberg: OrdMap<u64>,
    pub current_sdex: OrdMap<u64>,
    pub fill_history: OrdMap<Vec<FillEvent>>,
    pub order_counter: u64,
}

impl IcebergBook {
    /// Fills recorded for an order, empty when none.
    pub open spec fn history_of(&self, id: u64) -> Seq<FillEvent> {
        if self.fill_history@.contains_key(id as u128) { self.fill_history@[id as u128]@ } else { Seq::empty() }
    }

    /// The book's invariant: orders are keyed by their id, ids run from 1 to
    /// the counter, every exchange order maps to a stored order, and the
    /// running total of each order's fill history is its filled amount.
    pub open spec fn wf(&self) -> bool {
        &&& forall|k: u128| #[trigger] self.orders@.contains_key(k) ==> {
            &&& 1 <= k <= self.order_counter
            &&& self.orders@[k].id == k
            &&& self.orders@[k].price > 0
            &&& self.orders@[k].visible_amount > 0
            &&& in_i128(self.orders@[k].total_amount - self.orders@[k].filled_amount)
        }
        &&& forall|k: u128| #[trigger] self.sdex_to_iceberg@.contains_key(k) ==>
            self.orders@.contains_key(self.sdex_to_iceberg@[k] as u128)
        &&& forall|k: u128| #[trigger] self.current_sdex@.contains_key(k) ==> self.orders@.contains_key(k)
        &&& forall|k: u128| #[trigger] self.fill_history@.contains_key(k) ==> self.orders@.contains_key(k)
        &&& forall|k: u128| #[trigger] self.orders@.contains_key(k) ==>
            history_total(self.history_of(k as u64)) == self.orders@[k].filled_amount
    }

    pub fn new() -> (b: Self)
        ensures
            b.wf(),
            b.orders@ == Map::<u128, IcebergOrder>::empty(),
            b.sdex_to_iceberg@ == Map::<u128, u64>::empty(),
            b.current_sdex@ == Map::<u128, u64>::empty(),
            b.fill_history@ == Map::<u128, Vec<FillEvent>>::empty(),
            b.order_counter == 0,
    {
        IcebergBook {
            orders: OrdMap::new(),
            sdex_to_iceberg: OrdMap::new(),
            current_sdex: OrdMap::new(),
            fill_history: OrdMap::new(),
            order_counter: 0,
        }
    }

    /// The number of orders ever created.
    pub fn get_order_counter(&self) -> (r: u64)
        ensures
            r == self.order_counter,
    {
        self.order_counter
    }

    /// A copy of a stored order.
    pub fn get_iceberg_order(&self, order_id: u64) -> (r: Result<IcebergOrder, String>)
        ensures
            match r {
                Ok(o) => self.orders@.contains_key(order_id as u128) && o == self.orders@[order_id as u128],
                Err(e) => !self.orders@.contains_key(order_id as u128) && e@ == "Order not found"@,
            },
    {
        match self.orders.get(order_id as u128) {
            Some(o) => Ok(o.duplicate()),
            None => Err(String::from_str("Order not found")),
        }
    }

    /// The iceberg order that an exchange order shows.
    pub fn get_iceberg_from_sdex(&self, sdex_order_id: u64) -> (r: Result<u64, String>)
        ensures
            match r {
                Ok(id) => self.sdex_to_iceberg@.contains_key(sdex_order_id as u128)
                    && id == self.sdex_to_iceberg@[sdex_order_id as u128],
                Err(e) => !self.sdex_to_iceberg@.contains_key(sdex_order_id as u128) && e@ == "SDEX order not mapped"@,
            },
    {
        match self.sdex_to_iceberg.get(sdex_order_id as u128) {
            Some(id) => Ok(*id),
            None => Err(String::from_str("SDEX order not mapped")),
        }
    }

    /// The exchange order currently showing an iceberg order.
    pub fn get_current_sdex_order(&self, iceberg_id: u64) -> (r: Result<u64, String>)
        ensures
            match r {
                Ok(id) => self.current_sdex@.contains_key(iceberg_id as u128)
                    && id == self.current_sdex@[iceberg_id as u128],
                Err(e) => !self.current_sdex@.contains_key(iceberg_id as u128) && e@ == "No current SDEX order"@,
            },
    {
        match self.current_sdex.get(iceberg_id as u128) {
            Some(id) => Ok(*id),
            None => Err(String::from_str("No current SDEX order")),
        }
    }

    /// The fills of an order, oldest first; empty when none.
    pub fn get_fill_history(&self, order_id: u64) -> (r: Vec<FillEvent>)
        ensures
            r@ == self.history_of(order_id),
    {
        match self.fill_history.get(order_id as u128) {
            Some(h) => h.clone(),
            None => Vec::new(),
        }
    }
}


/// The reason an order is refused, if it is: the checks run in this order.
pub open spec fn create_rejection(total: int, visible_pct: int, price: int) -> Option<Seq<char>> {
    if total <= 0 {
        Some("Invalid total amount"@)
    } else if price <= 0 {
        Some("Invalid price"@)
    } else if visible_pct == 0 || visible_pct > MAX_VISIBLE_PCT {
        Some("Invalid visible percentage"@)
    } else if visible_slice(total, visible_pct) < MIN_VISIBLE_AMOUNT {
        Some("Visible amount too small"@)
    } else {
        None
    }
}

/// The arithmetic of an accepted order stays within `i128`.
pub open spec fn create_fits(total: int, visible_pct: int, price: int, now: u64) -> bool {
    (total > 0 && price > 0 && 0 < visible_pct <= MAX_VISIBLE_PCT) ==> {
        &&& in_i128(total * visible_pct)
        &&& visible_slice(total, visible_pct) >= MIN_VISIBLE_AMOUNT ==>
            in_i128(now + visible_slice(total, visible_pct) + price)
    }
}

/// A freshly created order.
pub open spec fn new_order(id: u64, user: AccountId, pair: AssetPair, side: OrderSide, total: i128,
    visible: i128, price: i128, now: u64) -> IcebergOrder {
    IcebergOrder {
        id: id,
        user: user,
        pair: pair,
        side: side,
        total_amount: total,
        visible_amount: visible,
        price: price,
        filled_amount: 0,
        current_visible_filled: 0,
        status: OrderStatus::Active,
        created_at: now,
        avg_fill_price: 0,
    }
}

/// The fill event recorded for a fill of an order.
pub open spec fn fill_event(o: IcebergOrder, amount: int, price: int) -> FillEvent {
    FillEvent {
        order_id: o.id,
        filled_amount: amount as i128,
        price: price as i128,
        total_filled: (o.filled_amount + amount) as i128,
    }
}

/// The arithmetic of moving an order's slice to a new price stays within
/// `i128`.
pub open spec fn reprice_fits(o: IcebergOrder, new_price: int, now: u64) -> bool {
    &&& in_i128(o.visible_amount - o.current_visible_filled)
    &&& in_i128(now + (o.visible_amount - o.current_visible_filled))
    &&& in_i128(now + (o.visible_amount - o.current_visible_filled) + new_price)
}

/// An order that can still be repriced.
pub open spec fn is_live(o: IcebergOrder) -> bool {
    o.status == OrderStatus::Active || o.status == OrderStatus::PartiallyFilled
}

impl IcebergBook {
    fn get_next_order_id(&mut self) -> (id: u64)
        requires
            old(self).order_counter < u64::MAX,
        ensures
            id == old(self).order_counter + 1,
            final(self).order_counter == id,
            final(self).orders@ == old(self).orders@,
            final(self).sdex_to_iceberg@ == old(self).sdex_to_iceberg@,
            final(self).current_sdex@ == old(self).current_sdex@,
            final(self).fill_history@ == old(self).fill_history@,
    {
        let next_id = self.order_counter + 1;
        self.order_counter = next_id;
        next_id
    }

    /// Creates an order and places its first slice; returns the order's id.
    pub fn create_iceberg_order(&mut self, user: AccountId, pair: AssetPair, side: OrderSide,
        total_amount: i128, visible_pct: u32, price: i128, now: u64) -> (r: Result<u64, String>)
        requires
            old(self).wf(),
            old(self).order_counter < u64::MAX,
            create_fits(total_amount as int, visible_pct as int, price as int, now),
        ensures
            final(self).wf(),
            match r {
                Ok(id) => {
                    let visible = visible_slice(total_amount as int, visible_pct as int);
                    let sdex = sdex_id(now, visible, price as int);
                    &&& create_rejection(total_amount as int, visible_pct as int, price as int) is None
                    &&& id == old(self).order_counter + 1
                    &&& final(self).order_counter == id
                    &&& final(self).orders@ == old(self).orders@.insert(id as u128,
                        new_order(id, user, pair, side, total_amount, visible as i128, price, now))
                    &&& final(self).sdex_to_iceberg@ == old(self).sdex_to_iceberg@.insert(sdex as u128, id)
                    &&& final(self).current_sdex@ == old(self).current_sdex@.insert(id as u128, sdex)
                    &&& final(self).fill_history@ == old(self).fill_history@
                },
                Err(e) => {
                    &&& create_rejection(total_amount as int, visible_pct as int, price as int) == Some(e@)
                    &&& final(self).orders@ == old(self).orders@
                    &&& final(self).sdex_to_iceberg@ == old(self).sdex_to_iceberg@
                    &&& final(self).current_sdex@ == old(self).current_sdex@
                    &&& final(self).fill_history@ == old(self).fill_history@
                    &&& final(self).order_counter == old(self).order_counter
                },
            },
    {
        if total_amount <= 0 {
            return Err(String::from_str("Invalid total amount"));
        }
        if price <= 0 {
            return Err(String::from_str("Invalid price"));
        }
        if visible_pct == 0 || visible_pct > MAX_VISIBLE_PCT {
            return Err(String::from_str("Invalid visible percentage"));
        }
        let visible_amount = (total_amount * visible_pct as i128) / BASIS_POINTS;
        if visible_amount < MIN_VISIBLE_AMOUNT {
            return Err(String::from_str("Visible amount too small"));
        }
        let order_id = self.get_next_order_id();
        let sdex_order_id = place_sdex_limit_order(now, visible_amount, price);
        let iceberg = IcebergOrder {
            id: order_id,
            user: user,
            pair: pair,
            side: side,
            total_amount: total_amount,
            visible_amount: visible_amount,
            price: price,
            filled_amount: 0,
            current_visible_filled: 0,
            status: OrderStatus::Active,
            created_at: now,
            avg_fill_price: 0,
        };
        let ghost old_b = *old(self);
        self.orders.insert(order_id as u128, iceberg);
        self.sdex_to_iceberg.insert(sdex_order_id as u128, order_id);
        self.current_sdex.insert(order_id as u128, sdex_order_id);
        proof {
            assert forall|k: u128| #[trigger] self.fill_history@.contains_key(k) implies self.orders@.contains_key(k) by {
                assert(old_b.orders@.contains_key(k));
            }
            assert forall|k: u128| #[trigger] self.orders@.contains_key(k) implies
                history_total(self.history_of(k as u64)) == self.orders@[k].filled_amount by {
                if k == order_id as u128 {
                    assert(!old_b.fill_history@.contains_key(k));
                } else {
                    assert(old_b.orders@.contains_key(k));
                    assert(self.history_of(k as u64) == old_b.history_of(k as u64));
                }
            }
        }
        Ok(order_id)
    }

    fn record_fill(&mut self, order_id: u64, filled_amount: i128, price: i128)
        requires
            in_i128(history_total(old(self).history_of(order_id)) + filled_amount),
        ensures
            final(self).orders@ == old(self).orders@,
            final(self).sdex_to_iceberg@ == old(self).sdex_to_iceberg@,
            final(self).current_sdex@ == old(self).current_sdex@,
            final(self).order_counter == old(self).order_counter,
            final(self).fill_history@.dom() == old(self).fill_history@.dom().insert(order_id as u128),
            forall|k: u64| k != order_id ==> #[trigger] final(self).history_of(k) == old(self).history_of(k),
            final(self).history_of(order_id) == old(self).history_of(order_id).push(FillEvent {
                order_id: order_id,
                filled_amount: filled_amount,
                price: price,
                total_filled: (history_total(old(self).history_of(order_id)) + filled_amount) as i128,
            }),
    {
        let mut history = self.get_fill_history(order_id);
        let total_filled = if history.len() > 0 {
            history[history.len() - 1].total_filled + filled_amount
        } else {
            filled_amount
        };
        history.push(FillEvent { order_id: order_id, filled_amount: filled_amount, price: price, total_filled: total_filled });
        self.fill_history.insert(order_id as u128, history);
        proof {
            assert forall|k: u64| k != order_id implies #[trigger] self.history_of(k) == old(self).history_of(k) by {
                assert(k as u128 != order_id as u128);
            }
        }
    }
}


/// The order an exchange order shows, when it is mapped.
pub open spec fn order_of_sdex(b: IcebergBook, sdex_order_id: u64) -> IcebergOrder {
    b.orders@[b.sdex_to_iceberg@[sdex_order_id as u128] as u128]
}

impl IcebergBook {
    /// Applies a fill of an exchange order to the iceberg order it shows:
    /// updates the filled amounts and the average price, records the fill,
    /// and shows a new slice once the current one is used up (or marks the
    /// order filled when nothing is left).
    pub fn on_sdex_fill(&mut self, sdex_order_id: u64, filled_amount: i128, fill_price: i128, now: u64) -> (r: Result<(), String>)
        requires
            old(self).wf(),
            old(self).sdex_to_iceberg@.contains_key(sdex_order_id as u128) ==>
                fill_fits(order_of_sdex(*old(self), sdex_order_id), filled_amount as int, fill_price as int, now),
        ensures
            final(self).wf(),
            final(self).order_counter == old(self).order_counter,
            match r {
                Ok(()) => {
                    let id = old(self).sdex_to_iceberg@[sdex_order_id as u128];
                    let o = order_of_sdex(*old(self), sdex_order_id);
                    let sdex = sdex_id(now, next_slice(o, filled_amount as int), o.price as int);
                    &&& old(self).sdex_to_iceberg@.contains_key(sdex_order_id as u128)
                    &&& final(self).orders@ == old(self).orders@.insert(id as u128,
                        order_after_fill(o, filled_amount as int, fill_price as int))
                    &&& final(self).fill_history@.dom() == old(self).fill_history@.dom().insert(id as u128)
                    &&& final(self).history_of(id) == old(self).history_of(id).push(
                        fill_event(o, filled_amount as int, fill_price as int))
                    &&& forall|k: u64| k != id ==> #[trigger] final(self).history_of(k) == old(self).history_of(k)
                    &&& replenishes(o, filled_amount as int) ==> {
                        &&& final(self).sdex_to_iceberg@ == old(self).sdex_to_iceberg@.insert(sdex as u128, id)
                        &&& final(self).current_sdex@ == old(self).current_sdex@.insert(id as u128, sdex)
                    }
                    &&& !replenishes(o, filled_amount as int) ==> {
                        &&& final(self).sdex_to_iceberg@ == old(self).sdex_to_iceberg@
                        &&& final(self).current_sdex@ == old(self).current_sdex@
                    }
                },
                Err(e) => {
                    &&& !old(self).sdex_to_iceberg@.contains_key(sdex_order_id as u128)
                    &&& e@ == "SDEX order not mapped"@
                    &&& final(self).orders@ == old(self).orders@
                    &&& final(self).sdex_to_iceberg@ == old(self).sdex_to_iceberg@
                    &&& final(self).current_sdex@ == old(self).current_sdex@
                    &&& final(self).fill_history@ == old(self).fill_history@
                },
            },
    {
        let iceberg_id = self.get_iceberg_from_sdex(sdex_order_id)?;
        let mut iceberg = self.get_iceberg_order(iceberg_id)?;
        let ghost o = iceberg;
        let ghost old_b = *self;
        iceberg.filled_amount = iceberg.filled_amount + filled_amount;
        iceberg.current_visible_filled = iceberg.current_visible_filled + filled_amount;
        let total_value = iceberg.avg_fill_price * (iceberg.filled_amount - filled_amount) + fill_price * filled_amount;
        iceberg.avg_fill_price = div_toward_zero(total_value, iceberg.filled_amount);
        self.record_fill(iceberg_id, filled_amount, fill_price);
        let ghost mid = *self;
        if iceberg.current_visible_filled >= iceberg.visible_amount {
            let remaining = iceberg.total_amount - iceberg.filled_amount;
            if remaining > 0 {
                let new_visible = if remaining < iceberg.visible_amount { remaining } else { iceberg.visible_amount };
                let new_sdex_order = place_sdex_limit_order(now, new_visible, iceberg.price);
                self.sdex_to_iceberg.insert(new_sdex_order as u128, iceberg_id);
                self.current_sdex.insert(iceberg_id as u128, new_sdex_order);
                iceberg.current_visible_filled = 0;
                iceberg.status = OrderStatus::PartiallyFilled;
            } else {
                iceberg.status = OrderStatus::Filled;
            }
        } else {
            if iceberg.filled_amount > 0 {
                iceberg.status = OrderStatus::PartiallyFilled;
            }
        }
        proof {
            assert(iceberg == order_after_fill(o, filled_amount as int, fill_price as int));
        }
        self.orders.insert(iceberg_id as u128, iceberg);
        proof {
            assert forall|k: u128| #[trigger] self.orders@.contains_key(k) implies
                history_total(self.history_of(k as u64)) == self.orders@[k].filled_amount by {
                if k != iceberg_id as u128 {
                    assert(old_b.orders@.contains_key(k));
                    assert((k as u64) != iceberg_id);
                    assert(mid.history_of(k as u64) == old_b.history_of(k as u64));
                    assert(self.history_of(k as u64) == mid.history_of(k as u64));
                }
            }
            assert forall|k: u64| k != iceberg_id implies #[trigger] self.history_of(k) == old_b.history_of(k) by {
                assert(mid.history_of(k) == old_b.history_of(k));
                assert(self.history_of(k) == mid.history_of(k));
            }
            assert(self.history_of(iceberg_id) == mid.history_of(iceberg_id));
        }
        Ok(())
    }

    /// Cancels an order of the user's that is neither filled nor cancelled
    /// and reports what had been filled.
    pub fn cancel_iceberg_order(&mut self, order_id: u64, user: AccountId) -> (r: Result<CancellationInfo, String>)
        requires
            old(self).wf(),
        ensures
            final(self).wf(),
            final(self).sdex_to_iceberg@ == old(self).sdex_to_iceberg@,
            final(self).current_sdex@ == old(self).current_sdex@,
            final(self).fill_history@ == old(self).fill_history@,
            final(self).order_counter == old(self).order_counter,
            match r {
                Ok(info) => {
                    let o = old(self).orders@[order_id as u128];
                    &&& old(self).orders@.contains_key(order_id as u128)
                    &&& o.user == user
                    &&& o.status != OrderStatus::Filled && o.status != OrderStatus::Cancelled
                    &&& final(self).orders@ == old(self).orders@.insert(order_id as u128,
                        with_progress(o, o.filled_amount as int, o.current_visible_filled as int,
                            o.avg_fill_price as int, OrderStatus::Cancelled))
                    &&& info == CancellationInfo {
                        filled_amount: o.filled_amount,
                        remaining_amount: (o.total_amount - o.filled_amount) as i128,
                        avg_fill_price: o.avg_fill_price,
                    }
                },
                Err(e) => {
                    let o = old(self).orders@[order_id as u128];
                    &&& final(self).orders@ == old(self).orders@
                    &&& if !old(self).orders@.contains_key(order_id as u128) {
                        e@ == "Order not found"@
                    } else if o.user != user {
                        e@ == "Not order owner"@
                    } else {
                        (o.status == OrderStatus::Filled || o.status == OrderStatus::Cancelled)
                            && e@ == "Order not cancellable"@
                    }
                },
            },
    {
        let mut iceberg = self.get_iceberg_order(order_id)?;
        if iceberg.user != user {
            return Err(String::from_str("Not order owner"));
        }
        if iceberg.status == OrderStatus::Filled || iceberg.status == OrderStatus::Cancelled {
            return Err(String::from_str("Order not cancellable"));
        }
        iceberg.status = OrderStatus::Cancelled;
        let info = CancellationInfo {
            filled_amount: iceberg.filled_amount,
            remaining_amount: iceberg.total_amount - iceberg.filled_amount,
            avg_fill_price: iceberg.avg_fill_price,
        };
        self.orders.insert(order_id as u128, iceberg);
        Ok(info)
    }

    /// Moves the user's live order to a new price: the unfilled part of the
    /// slice on show is placed again at that price.
    pub fn update_iceberg_price(&mut self, order_id: u64, user: AccountId, new_price: i128, now: u64) -> (r: Result<(), String>)
        requires
            old(self).wf(),
            (old(self).orders@.contains_key(order_id as u128) && new_price > 0) ==>
                reprice_fits(old(self).orders@[order_id as u128], new_price as int, now),
        ensures
            final(self).wf(),
            final(self).fill_history@ == old(self).fill_history@,
            final(self).order_counter == old(self).order_counter,
            match r {
                Ok(()) => {
                    let o = old(self).orders@[order_id as u128];
                    let sdex = sdex_id(now, o.visible_amount - o.current_visible_filled, new_price as int);
                    &&& old(self).orders@.contains_key(order_id as u128)
                    &&& o.user == user
                    &&& is_live(o)
                    &&& new_price > 0
                    &&& final(self).orders@ == old(self).orders@.insert(order_id as u128, IcebergOrder {
                        id: o.id, user: o.user, pair: o.pair, side: o.side, total_amount: o.total_amount,
                        visible_amount: o.visible_amount, price: new_price, filled_amount: o.filled_amount,
                        current_visible_filled: o.current_visible_filled, status: o.status,
                        created_at: o.created_at, avg_fill_price: o.avg_fill_price,
                    })
                    &&& final(self).sdex_to_iceberg@ == old(self).sdex_to_iceberg@.insert(sdex as u128, order_id)
                    &&& final(self).current_sdex@ == old(self).current_sdex@.insert(order_id as u128, sdex)
                },
                Err(e) => {
                    let o = old(self).orders@[order_id as u128];
                    &&& final(self).orders@ == old(self).orders@
                    &&& final(self).sdex_to_iceberg@ == old(self).sdex_to_iceberg@
                    &&& final(self).current_sdex@ == old(self).current_sdex@
                    &&& if !old(self).orders@.contains_key(order_id as u128) {
                        e@ == "Order not found"@
                    } else if o.user != user {
                        e@ == "Not order owner"@
                    } else if !is_live(o) {
                        e@ == "Order not active"@
                    } else {
                        new_price <= 0 && e@ == "Invalid price"@
                    }
                },
            },
    {
        let mut iceberg = self.get_iceberg_order(order_id)?;
        if iceberg.user != user {
            return Err(String::from_str("Not order owner"));
        }
        if iceberg.status != OrderStatus::Active && iceberg.status != OrderStatus::PartiallyFilled {
            return Err(String::from_str("Order not active"));
        }
        if new_price <= 0 {
            return Err(String::from_str("Invalid price"));
        }
        let remaining_visible = iceberg.visible_amount - iceberg.current_visible_filled;
        let new_sdex_order = place_sdex_limit_order(now, remaining_visible, new_price);
        iceberg.price = new_price;
        self.orders.insert(order_id as u128, iceberg);
        self.sdex_to_iceberg.insert(new_sdex_order as u128, order_id);
        self.current_sdex.insert(order_id as u128, new_sdex_order);
        Ok(())
    }

    /// The public view of an order: its slice, never its total.
    pub fn get_public_order_view(&self, order_id: u64) -> (r: Result<PublicOrderView, String>)
        ensures
            match r {
                Ok(v) => {
                    let o = self.orders@[order_id as u128];
                    &&& self.orders@.contains_key(order_id as u128)
                    &&& v == PublicOrderView { id: o.id, pair: o.pair, side: o.side, price: o.price, visible_amount: o.visible_amount }
                },
                Err(e) => !self.orders@.contains_key(order_id as u128) && e@ == "Order not found"@,
            },
    {
        let iceberg = self.get_iceberg_order(order_id)?;
        Ok(PublicOrderView {
            id: iceberg.id,
            pair: iceberg.pair,
            side: iceberg.side,
            price: iceberg.price,
            visible_amount: iceberg.visible_amount,
        })
    }

    /// The owner's full view of an order.
    pub fn get_full_order_view(&self, order_id: u64, user: AccountId) -> (r: Result<FullOrderView, String>)
        requires
            self.wf(),
        ensures
            match r {
                Ok(v) => {
                    let o = self.orders@[order_id as u128];
                    &&& self.orders@.contains_key(order_id as u128)
                    &&& o.user == user
                    &&& v == FullOrderView {
                        id: o.id, pair: o.pair, side: o.side, price: o.price, total_amount: o.total_amount,
                        visible_amount: o.visible_amount, filled_amount: o.filled_amount,
                        remaining_amount: (o.total_amount - o.filled_amount) as i128, status: o.status,
                        avg_fill_price: o.avg_fill_price,
                    }
                },
                Err(e) => if !self.orders@.contains_key(order_id as u128) {
                    e@ == "Order not found"@
                } else {
                    self.orders@[order_id as u128].user != user && e@ == "Not order owner"@
                },
            },
    {
        let iceberg = self.get_iceberg_order(order_id)?;
        if iceberg.user != user {
            return Err(String::from_str("Not order owner"));
        }
        Ok(FullOrderView {
            id: iceberg.id,
            pair: iceberg.pair,
            side: iceberg.side,
            price: iceberg.price,
            total_amount: iceberg.total_amount,
            visible_amount: iceberg.visible_amount,
            filled_amount: iceberg.filled_amount,
            remaining_amount: iceberg.total_amount - iceberg.filled_amount,
            status: iceberg.status,
            avg_fill_price: iceberg.avg_fill_price,
        })
    }

    /// Ids of the user's open (active or partly filled) orders, ascending,
    /// at most `limit` of them.
    pub fn get_user_orders(&self, user: AccountId, limit: u32) -> (r: Vec<u64>)
        ensures
            r@ == first_upto(open_ids_upto(self.orders@, user, self.order_counter as nat), limit as int),
    {
        let mut orders: Vec<u64> = Vec::new();
        let counter = self.order_counter;
        let mut found: u32 = 0;
        let mut i: u64 = 0;
        while i < counter
            invariant_except_break
                i <= counter,
            invariant
                counter == self.order_counter,
                found as int == orders@.len(),
                orders@ == first_upto(open_ids_upto(self.orders@, user, i as nat), limit as int),
            ensures
                orders@ == first_upto(open_ids_upto(self.orders@, user, counter as nat), limit as int),
            decreases counter - i,
        {
            if found >= limit {
                proof {
                    lemma_open_ids_prefix(self.orders@, user, i as nat, counter as nat);
                    let a = open_ids_upto(self.orders@, user, i as nat);
                    let c = open_ids_upto(self.orders@, user, counter as nat);
                    assert(c.take(limit as int) =~= a.take(limit as int));
                }
                break;
            }
            let id = i + 1;
            let ghost prev = open_ids_upto(self.orders@, user, i as nat);
            match self.orders.get(id as u128) {
                Some(order) => {
                    if order.user == user && (order.status == OrderStatus::Active || order.status == OrderStatus::PartiallyFilled) {
                        orders.push(id);
                        found = found + 1;
                    }
                },
                None => {},
            }
            i = id;
            proof {
                assert(prev.len() <= limit);
                assert(open_ids_upto(self.orders@, user, i as nat) == (if self.orders@.contains_key(i as u128) && open_order_of(self.orders@[i as u128], user) { prev.push(i) } else { prev }));
            }
        }
        orders
    }
}

}
