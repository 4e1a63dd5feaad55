//! Per-user positions, latest asset prices and price history: the book that
//! the risk checks, hedging and correlation logic read.
use vstd::prelude::*;
use crate::math::{div_toward_zero, in_i128, min, tdiv};
use crate::store::OrdMap;
use crate::AccountId;

verus! {

/// A user's holding in one asset.
#[derive(Clone, Copy, Debug, PartialEq, Eq, Structural)]
pub struct Position {
    pub amount: i128,
    pub entry_price: i128,
    /// Highest price seen since the position was opened (0 = none yet).
    pub high_price: i128,
}

/// Per-user risk settings.
#[derive(Clone, Copy, Debug, PartialEq, Eq, Structural)]
pub struct RiskConfig {
    pub max_position_pct: u32,
    pub daily_trade_limit: u32,
    /// Fixed stop loss, in whole percent below the entry price.
    pub stop_loss_pct: u32,
    pub trailing_stop_enabled: bool,
    /// Trailing stop distance in basis points below the high.
    pub trailing_stop_pct: u32,
}

/// The settings a user has until they choose others.
pub open spec fn default_risk_config() -> RiskConfig {
    RiskConfig { max_position_pct: 20, daily_trade_limit: 10, stop_loss_pct: 15, trailing_stop_enabled: false, trailing_stop_pct: 1000 }
}

impl Default for RiskConfig {
    fn default() -> (r: Self)
        ensures
            r == default_risk_config(),
    {
        RiskConfig { max_position_pct: 20, daily_trade_limit: 10, stop_loss_pct: 15, trailing_stop_enabled: false, trailing_stop_pct: 1000 }
    }
}

/// The price at or below which a position bought at `entry_price` is
/// stopped out: `stop_loss_pct` percent under the entry, rounded toward zero.
pub open spec fn stop_loss_price(entry_price: i128, stop_loss_pct: u32) -> int {
    tdiv(entry_price * (100 - stop_loss_pct), 100)
}

/// An asset id together with the position held in it.
#[derive(Clone, Copy, Debug, PartialEq, Eq, Structural)]
pub struct Holding {
    pub asset: u32,
    pub position: Position,
}

/// Number of price samples kept per asset.
pub const PRICE_HISTORY_SLOTS: u32 = 30;

/// Ring buffer of the latest prices of one asset.
pub struct PriceRing {
    /// Prices recorded so far (the ring keeps the last 30).
    pub count: u32,
    pub slots: Vec<i128>,
}

pub open spec fn ring_ok(r: PriceRing) -> bool {
    r.slots@.len() == min(r.count as int, 30)
}

pub struct RiskBook {
    positions: OrdMap<OrdMap<Position>>,
    prices: OrdMap<i128>,
    history: OrdMap<PriceRing>,
    configs: OrdMap<RiskConfig>,
}

/// The price used to value a holding: the latest asset price, else its entry price.
pub open spec fn valuation_price(h: Holding, prices: Map<u128, i128>) -> int {
    if prices.contains_key(h.asset as u128) { prices[h.asset as u128] as int } else { h.position.entry_price as int }
}

pub open spec fn holding_value(h: Holding, prices: Map<u128, i128>) -> int {
    tdiv(h.position.amount * valuation_price(h, prices), 100)
}

/// Sum of the holding values, as the portfolio value.
pub open spec fn holdings_value(hs: Seq<Holding>, prices: Map<u128, i128>) -> int
    decreases hs.len(),
{
    if hs.len() == 0 {
        0
    } else {
        holdings_value(hs.drop_last(), prices) + holding_value(hs.last(), prices)
    }
}

/// Valuing the holdings in order never leaves the range of `i128`.
pub open spec fn holdings_value_fits(hs: Seq<Holding>, prices: Map<u128, i128>) -> bool {
    forall|i: int| 0 <= i < hs.len() ==> {
        &&& in_i128(#[trigger] hs[i].position.amount * valuation_price(hs[i], prices))
        &&& in_i128(holdings_value(hs.take(i + 1), prices))
    }
}

/// Strictly ascending keys.
pub open spec fn ascending(s: Seq<u128>) -> bool {
    forall|i: int, j: int| 0 <= i < j < s.len() ==> #[trigger] s[i] < #[trigger] s[j]
}

/// `s` lists the members of `d` in ascending order.
pub open spec fn lists_in_order(s: Seq<u128>, d: Set<u128>) -> bool {
    &&& ascending(s)
    &&& forall|x: u128| #![trigger s.contains(x)] #![trigger d.contains(x)] s.contains(x) <==> d.contains(x)
}

/// The members of a finite set of keys in ascending order.
pub open spec fn ascending_keys(d: Set<u128>) -> Seq<u128> {
    choose|s: Seq<u128>| lists_in_order(s, d)
}

/// Two ascending sequences with the same members are equal.
proof fn lemma_ascending_unique(a: Seq<u128>, b: Seq<u128>)
    requires
        ascending(a),
        ascending(b),
        forall|x: u128| #![trigger a.contains(x)] #![trigger b.contains(x)] a.contains(x) <==> b.contains(x),
    ensures
        a == b,
    decreases a.len(),
{
    if a.len() == 0 {
        if b.len() > 0 {
            assert(b.contains(b[0]));
        }
        assert(a =~= b);
    } else if b.len() == 0 {
        assert(a.contains(a[0]));
    } else {
        assert(a.contains(a[0]));
        assert(b.contains(b[0]));
        let i = choose|i: int| 0 <= i < a.len() && a[i] == b[0];
        let j = choose|j: int| 0 <= j < b.len() && b[j] == a[0];
        if i > 0 { assert(a[0] < a[i]); }
        if j > 0 { assert(b[0] < b[j]); }
        assert(a[0] == b[0]);
        let a1 = a.drop_first();
        let b1 = b.drop_first();
        assert forall|x: u128| #![trigger a1.contains(x)] #![trigger b1.contains(x)] a1.contains(x) <==> b1.contains(x) by {
            if a1.contains(x) {
                let k = choose|k: int| 0 <= k < a1.len() && a1[k] == x;
                assert(a[k + 1] == x);
                assert(a[0] < a[k + 1]);
                assert(a.contains(x));
                let m = choose|m: int| 0 <= m < b.len() && b[m] == x;
                assert(m != 0);
                assert(b1[m - 1] == x);
            }
            if b1.contains(x) {
                let k = choose|k: int| 0 <= k < b1.len() && b1[k] == x;
                assert(b[k + 1] == x);
                assert(b[0] < b[k + 1]);
                assert(b.contains(x));
                let m = choose|m: int| 0 <= m < a.len() && a[m] == x;
                assert(m != 0);
                assert(a1[m - 1] == x);
            }
        }
        lemma_ascending_unique(a1, b1);
        assert forall|k: int| 0 <= k < a.len() implies a[k] == b[k] by {
            if k > 0 { assert(a[k] == a1[k - 1] && b[k] == b1[k - 1]); }
        }
        assert(a =~= b);
    }
}

/// An ascending listing of a set is the one `ascending_keys` names.
pub proof fn lemma_ascending_keys(s: Seq<u128>, d: Set<u128>)
    requires
        lists_in_order(s, d),
    ensures
        ascending_keys(d) == s,
{
    let c = ascending_keys(d);
    assert(lists_in_order(c, d));
    assert forall|x: u128| #![trigger c.contains(x)] #![trigger s.contains(x)] c.contains(x) <==> s.contains(x) by {
        assert(c.contains(x) <==> d.contains(x));
        assert(s.contains(x) <==> d.contains(x));
    }
    lemma_ascending_unique(c, s);
}

/// The holdings of a map of positions by asset, in ascending asset order.
pub open spec fn holdings_from_map(m: Map<u128, Position>) -> Seq<Holding> {
    ascending_keys(m.dom()).map_values(|k: u128| Holding { asset: k as u32, position: m[k] })
}

impl RiskBook {
    /// The user's positions by asset (empty for a user with none).
    pub closed spec fn user_positions(self, user: AccountId) -> Map<u128, Position> {
        if self.positions@.contains_key(user as u128) { self.positions@[user as u128]@ } else { Map::empty() }
    }

    /// The user's holdings in ascending asset order.
    pub open spec fn holdings_spec(self, user: AccountId) -> Seq<Holding> {
        holdings_from_map(self.user_positions(user))
    }

    /// The user's position in `asset`, if any.
    pub open spec fn position_spec(self, user: AccountId, asset: u32) -> Option<Position> {
        if self.user_positions(user).contains_key(asset as u128) { Some(self.user_positions(user)[asset as u128]) } else { None }
    }

    /// Latest prices by asset.
    pub closed spec fn prices_spec(self) -> Map<u128, i128> {
        self.prices@
    }

    /// Recorded price count of an asset.
    pub closed spec fn history_count(self, asset: u32) -> int {
        if self.history@.contains_key(asset as u128) { self.history@[asset as u128].count as int } else { 0 }
    }

    /// Recorded price slots of an asset.
    pub closed spec fn history_slots(self, asset: u32) -> Seq<i128> {
        if self.history@.contains_key(asset as u128) { self.history@[asset as u128].slots@ } else { Seq::empty() }
    }

    /// The user's risk settings: those set last, else the defaults.
    pub closed spec fn config_of(self, user: AccountId) -> RiskConfig {
        if self.configs@.contains_key(user as u128) { self.configs@[user as u128] } else { default_risk_config() }
    }

    pub closed spec fn wf(self) -> bool {
        &&& forall|k: u128| #[trigger] self.history@.contains_key(k) ==> ring_ok(self.history@[k])
        &&& forall|k: u128| #[trigger] self.positions@.contains_key(k) ==> k <= u64::MAX && (forall|a: u128| #[trigger] self.positions@[k]@.contains_key(a) ==> a <= u32::MAX)
    }

    pub fn new() -> (b: Self)
        ensures
            b.wf(),
            forall|u: AccountId| #[trigger] b.user_positions(u) == Map::<u128, Position>::empty(),
            forall|u: AccountId| #[trigger] b.holdings_spec(u) == Seq::<Holding>::empty(),
            forall|u: AccountId, a: u32| #[trigger] b.position_spec(u, a) == None::<Position>,
            b.prices_spec() == Map::<u128, i128>::empty(),
            forall|a: u32| #[trigger] b.history_count(a) == 0,
            forall|u: AccountId| #[trigger] b.config_of(u) == default_risk_config(),
    {
        let b = RiskBook { positions: OrdMap::new(), prices: OrdMap::new(), history: OrdMap::new(), configs: OrdMap::new() };
        proof {
            lemma_ascending_keys(Seq::<u128>::empty(), Set::<u128>::empty());
            assert(Map::<u128, Position>::empty().dom() =~= Set::<u128>::empty());
            assert forall|u: AccountId| #[trigger] b.holdings_spec(u) == Seq::<Holding>::empty() by {
                assert(b.user_positions(u) == Map::<u128, Position>::empty());
                assert(b.holdings_spec(u) =~= Seq::<Holding>::empty());
            }
        }
        b
    }

    pub fn set_asset_price(&mut self, asset: u32, price: i128)
        requires
            old(self).wf(),
        ensures
            final(self).wf(),
            final(self).prices_spec() == old(self).prices_spec().insert(asset as u128, price),
            forall|u: AccountId| #[trigger] final(self).holdings_spec(u) == old(self).holdings_spec(u),
            forall|u: AccountId, a: u32| #[trigger] final(self).position_spec(u, a) == old(self).position_spec(u, a),
            forall|a: u32| #[trigger] final(self).history_count(a) == old(self).history_count(a),
            forall|a: u32| #[trigger] final(self).history_slots(a) == old(self).history_slots(a),
            forall|u: AccountId| #[trigger] final(self).user_positions(u) == old(self).user_positions(u),
            forall|u: AccountId| #[trigger] final(self).config_of(u) == old(self).config_of(u),
    {
        self.prices.insert(asset as u128, price);
    }

    pub fn get_asset_price(&self, asset: u32) -> (r: Option<i128>)
        ensures
            r == (if self.prices_spec().contains_key(asset as u128) { Some(self.prices_spec()[asset as u128]) } else { None::<i128> }),
    {
        match self.prices.get(asset as u128) {
            Some(p) => Some(*p),
            None => None,
        }
    }

    pub fn get_position(&self, user: AccountId, asset: u32) -> (r: Option<Position>)
        ensures
            r == self.position_spec(user, asset),
    {
        match self.positions.get(user as u128) {
            Some(m) => match m.get(asset as u128) {
                Some(p) => Some(*p),
                None => None,
            },
            None => None,
        }
    }

    /// The user's risk settings (the defaults until set).
    pub fn get_risk_config(&self, user: AccountId) -> (r: RiskConfig)
        ensures
            r == self.config_of(user),
    {
        match self.configs.get(user as u128) {
            Some(c) => *c,
            None => RiskConfig::default(),
        }
    }

    /// Sets the user's risk settings; nothing else changes.
    pub fn set_risk_config(&mut self, user: AccountId, config: RiskConfig)
        requires
            old(self).wf(),
        ensures
            final(self).wf(),
            final(self).config_of(user) == config,
            forall|u: AccountId| u != user ==> #[trigger] final(self).config_of(u) == old(self).config_of(u),
            forall|u: AccountId| #[trigger] final(self).holdings_spec(u) == old(self).holdings_spec(u),
            forall|u: AccountId, a: u32| #[trigger] final(self).position_spec(u, a) == old(self).position_spec(u, a),
            final(self).prices_spec() == old(self).prices_spec(),
            forall|a: u32| #[trigger] final(self).history_count(a) == old(self).history_count(a),
            forall|a: u32| #[trigger] final(self).history_slots(a) == old(self).history_slots(a),
            forall|u: AccountId| #[trigger] final(self).user_positions(u) == old(self).user_positions(u),
    {
        self.configs.insert(user as u128, config);
    }

    /// Whether the user's position in `asset` has hit its stop loss: the
    /// oracle price when there is one, else the exchange price, at or
    /// below the stop price. No position, no stop.
    pub fn check_stop_loss(&self, user: AccountId, asset: u32, sdex_price: i128, oracle_price: Option<i128>, config: &RiskConfig) -> (r: bool)
        requires
            self.position_spec(user, asset) matches Some(p) ==> in_i128(p.entry_price * (100 - config.stop_loss_pct)),
        ensures
            r == (match self.position_spec(user, asset) {
                None => false,
                Some(p) => (match oracle_price { Some(o) => o, None => sdex_price }) <= stop_loss_price(p.entry_price, config.stop_loss_pct),
            }),
    {
        let position = match self.get_position(user, asset) {
            Some(p) => p,
            None => return false,
        };
        let current_price = match oracle_price {
            Some(o) => o,
            None => sdex_price,
        };
        let pct: i128 = 100 - config.stop_loss_pct as i128;
        let stop_price = div_toward_zero(position.entry_price * pct, 100);
        current_price <= stop_price
    }

    /// Store `position` as the user's position in `asset`.
    pub fn set_position(&mut self, user: AccountId, asset: u32, position: Position)
        requires
            old(self).wf(),
        ensures
            final(self).wf(),
            final(self).position_spec(user, asset) == Some(position),
            forall|u: AccountId, a: u32| (u != user || a != asset) ==> #[trigger] final(self).position_spec(u, a) == old(self).position_spec(u, a),
            forall|u: AccountId| u != user ==> #[trigger] final(self).holdings_spec(u) == old(self).holdings_spec(u),
            final(self).prices_spec() == old(self).prices_spec(),
            forall|a: u32| #[trigger] final(self).history_count(a) == old(self).history_count(a),
            forall|a: u32| #[trigger] final(self).history_slots(a) == old(self).history_slots(a),
            final(self).user_positions(user) == old(self).user_positions(user).insert(asset as u128, position),
            forall|u: AccountId| u != user ==> #[trigger] final(self).user_positions(u) == old(self).user_positions(u),
            forall|u: AccountId| #[trigger] final(self).config_of(u) == old(self).config_of(u),
    {
        let mut inner = match self.positions.remove(user as u128) {
            Some(m) => m,
            None => OrdMap::new(),
        };
        inner.insert(asset as u128, position);
        self.positions.insert(user as u128, inner);
        proof {
            assert forall|u: AccountId| u != user implies #[trigger] self.holdings_spec(u) == old(self).holdings_spec(u) by {
                assert((u as u128) != (user as u128));
            }
            assert forall|u: AccountId, a: u32| (u != user || a != asset) implies #[trigger] self.position_spec(u, a) == old(self).position_spec(u, a) by {
                if u != user { assert((u as u128) != (user as u128)); }
                else { assert((a as u128) != (asset as u128)); }
            }
        }
    }

    /// Remove the user's position in `asset`.
    pub fn remove_position(&mut self, user: AccountId, asset: u32)
        requires
            old(self).wf(),
        ensures
            final(self).wf(),
            final(self).position_spec(user, asset) == None::<Position>,
            forall|u: AccountId, a: u32| (u != user || a != asset) ==> #[trigger] final(self).position_spec(u, a) == old(self).position_spec(u, a),
            forall|u: AccountId| u != user ==> #[trigger] final(self).holdings_spec(u) == old(self).holdings_spec(u),
            final(self).prices_spec() == old(self).prices_spec(),
            forall|a: u32| #[trigger] final(self).history_count(a) == old(self).history_count(a),
            forall|a: u32| #[trigger] final(self).history_slots(a) == old(self).history_slots(a),
            final(self).user_positions(user) == old(self).user_positions(user).remove(asset as u128),
            forall|u: AccountId| u != user ==> #[trigger] final(self).user_positions(u) == old(self).user_positions(u),
            forall|u: AccountId| #[trigger] final(self).config_of(u) == old(self).config_of(u),
    {
        match self.positions.remove(user as u128) {
            Some(m) => {
                let mut inner = m;
                inner.remove(asset as u128);
                self.positions.insert(user as u128, inner);
            },
            None => {},
        }
        proof {
            assert forall|u: AccountId| u != user implies #[trigger] self.holdings_spec(u) == old(self).holdings_spec(u) by {
                assert((u as u128) != (user as u128));
            }
            assert forall|u: AccountId, a: u32| (u != user || a != asset) implies #[trigger] self.position_spec(u, a) == old(self).position_spec(u, a) by {
                if u != user { assert((u as u128) != (user as u128)); }
                else { assert((a as u128) != (asset as u128)); }
            }
        }
    }

    /// Record `amount` held at `price`: the entry price becomes `price`, the
    /// high-water price is kept (or starts at `price` for a new position).
    pub fn update_position(&mut self, user: AccountId, asset: u32, amount: i128, price: i128)
        requires
            old(self).wf(),
        ensures
            final(self).wf(),
            final(self).position_spec(user, asset) == Some(Position {
                amount,
                entry_price: price,
                high_price: match old(self).position_spec(user, asset) {
                    Some(p) => p.high_price,
                    None => price,
                },
            }),
            forall|u: AccountId, a: u32| (u != user || a != asset) ==> #[trigger] final(self).position_spec(u, a) == old(self).position_spec(u, a),
            forall|u: AccountId| u != user ==> #[trigger] final(self).holdings_spec(u) == old(self).holdings_spec(u),
            final(self).prices_spec() == old(self).prices_spec(),
            forall|a: u32| #[trigger] final(self).history_count(a) == old(self).history_count(a),
            forall|a: u32| #[trigger] final(self).history_slots(a) == old(self).history_slots(a),
            final(self).user_positions(user) == old(self).user_positions(user).insert(asset as u128, Position {
                amount,
                entry_price: price,
                high_price: match old(self).position_spec(user, asset) {
                    Some(p) => p.high_price,
                    None => price,
                },
            }),
            forall|u: AccountId| u != user ==> #[trigger] final(self).user_positions(u) == old(self).user_positions(u),
            forall|u: AccountId| #[trigger] final(self).config_of(u) == old(self).config_of(u),
    {
        let high = match self.get_position(user, asset) {
            Some(p) => p.high_price,
            None => price,
        };
        self.set_position(user, asset, Position { amount, entry_price: price, high_price: high });
    }

    /// The user's holdings in ascending asset order.
    pub fn holdings(&self, user: AccountId) -> (r: Vec<Holding>)
        ensures
            r@ == self.holdings_spec(user),
    {
        let mut out: Vec<Holding> = Vec::new();
        match self.positions.get(user as u128) {
            Some(m) => {
                let n = m.len();
                let ghost listed = m.key_seq().map_values(|k: u128| Holding { asset: k as u32, position: m@[k] });
                let mut i: usize = 0;
                while i < n
                    invariant
                        n == m.key_seq().len(),
                        i <= n,
                        listed == m.key_seq().map_values(|k: u128| Holding { asset: k as u32, position: m@[k] }),
                        out@ == listed.take(i as int),
                    decreases n - i,
                {
                    let k = m.key_at(i);
                    let p = *m.value_at(i);
                    out.push(Holding { asset: k as u32, position: p });
                    i = i + 1;
                    proof {
                        assert(out@ =~= listed.take(i as int));
                    }
                }
                proof {
                    assert(out@ =~= listed);
                    assert(lists_in_order(m.key_seq(), m@.dom()));
                    lemma_ascending_keys(m.key_seq(), m@.dom());
                    assert(self.user_positions(user) == m@);
                }
            },
            None => {
                proof {
                    lemma_ascending_keys(Seq::<u128>::empty(), Set::<u128>::empty());
                    assert(self.user_positions(user) == Map::<u128, Position>::empty());
                    assert(Map::<u128, Position>::empty().dom() =~= Set::<u128>::empty());
                    assert(out@ =~= self.holdings_spec(user));
                }
            },
        }
        out
    }

    /// Portfolio value of the user: sum of amount × price / 100 over the
    /// holdings, valued at the latest asset price or else the entry price.
    pub fn calculate_portfolio_value(&self, user: AccountId) -> (v: i128)
        requires
            holdings_value_fits(self.holdings_spec(user), self.prices_spec()),
        ensures
            v == holdings_value(self.holdings_spec(user), self.prices_spec()),
    {
        let hs = self.holdings(user);
        let ghost prices = self.prices_spec();
        let mut total: i128 = 0;
        let mut i: usize = 0;
        while i < hs.len()
            invariant
                i <= hs@.len(),
                prices == self.prices_spec(),
                holdings_value_fits(hs@, prices),
                total == holdings_value(hs@.take(i as int), prices),
            decreases hs@.len() - i,
        {
            let h = hs[i];
            let price = match self.get_asset_price(h.asset) {
                Some(p) => p,
                None => h.position.entry_price,
            };
            proof {
                assert(hs@.take(i + 1).drop_last() =~= hs@.take(i as int));
                assert(hs@[i as int] == h);
            }
            total = total + h.position.amount * price / 100;
            i = i + 1;
        }
        proof { assert(hs@.take(hs@.len() as int) =~= hs@); }
        total
    }

    /// Append `price` to the asset's price history (the last 30 are kept).
    pub fn record_price(&mut self, asset: u32, price: i128)
        requires
            old(self).wf(),
            old(self).history_count(asset) < u32::MAX,
        ensures
            final(self).wf(),
            final(self).history_count(asset) == old(self).history_count(asset) + 1,
            final(self).history_slots(asset) == (if old(self).history_count(asset) < 30 {
                old(self).history_slots(asset).push(price)
            } else {
                old(self).history_slots(asset).update(old(self).history_count(asset) % 30, price)
            }),
            forall|a: u32| a != asset ==> #[trigger] final(self).history_count(a) == old(self).history_count(a),
            forall|a: u32| a != asset ==> #[trigger] final(self).history_slots(a) == old(self).history_slots(a),
            forall|u: AccountId| #[trigger] final(self).holdings_spec(u) == old(self).holdings_spec(u),
            forall|u: AccountId, a: u32| #[trigger] final(self).position_spec(u, a) == old(self).position_spec(u, a),
            final(self).prices_spec() == old(self).prices_spec(),
            forall|u: AccountId| #[trigger] final(self).user_positions(u) == old(self).user_positions(u),
            forall|u: AccountId| #[trigger] final(self).config_of(u) == old(self).config_of(u),
    {
        let mut ring = match self.history.remove(asset as u128) {
            Some(r) => r,
            None => PriceRing { count: 0, slots: Vec::new() },
        };
        if ring.count < PRICE_HISTORY_SLOTS {
            ring.slots.push(price);
        } else {
            let idx = (ring.count % PRICE_HISTORY_SLOTS) as usize;
            ring.slots.set(idx, price);
        }
        ring.count = ring.count + 1;
        self.history.insert(asset as u128, ring);
        proof {
            assert forall|a: u32| a != asset implies #[trigger] self.history_count(a) == old(self).history_count(a) && self.history_slots(a) == old(self).history_slots(a) by {
                assert((a as u128) != (asset as u128));
            }
        }
    }

    /// A well-formed book keeps the last `min(count, 30)` prices of each asset.
    pub proof fn lemma_history_shape(self, asset: u32)
        requires
            self.wf(),
        ensures
            self.history_slots(asset).len() == min(self.history_count(asset), 30),
    {
        if self.history@.contains_key(asset as u128) {
            assert(ring_ok(self.history@[asset as u128]));
        }
    }

    /// Number of prices recorded for the asset.
    pub fn price_history_count(&self, asset: u32) -> (n: u32)
        ensures
            n == self.history_count(asset),
    {
        match self.history.get(asset as u128) {
            Some(r) => r.count,
            None => 0,
        }
    }

    /// Recorded price in ring slot `idx`, if that slot has been written.
    pub fn price_history_slot(&self, asset: u32, idx: u32) -> (r: Option<i128>)
        ensures
            r == (if (idx as int) < self.history_slots(asset).len() { Some(self.history_slots(asset)[idx as int]) } else { None::<i128> }),
    {
        match self.history.get(asset as u128) {
            Some(ring) => {
                if (idx as usize) < ring.slots.len() {
                    Some(ring.slots[idx as usize])
                } else {
                    None
                }
            },
            None => None,
        }
    }
}


}
