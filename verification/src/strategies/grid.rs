//! Grid trading: limit orders at evenly spaced price levels between a lower
//! and an upper bound, buys below the current price and sells above it.
//! A filled level is replaced by a fresh order, and a fill next to an
//! opposite fill books the spread as profit.
use vstd::prelude::*;
use crate::errors::AutoTradeError;
use crate::math::{div_toward_zero, in_i128, tdiv};
use crate::store::OrdMap;
use crate::AccountId;

verus! {

/// Shape of a grid.
#[derive(Clone, Copy, Debug, PartialEq, Eq, Structural)]
pub struct GridConfig {
    pub upper_price: i128,
    pub lower_price: i128,
    pub num_grids: u32,
    pub grid_spacing: i128,
    pub order_size_per_grid: i128,
    pub rebalance_on_fill: bool,
}

#[derive(Clone, Copy, Debug, PartialEq, Eq, Structural)]
pub enum OrderSide {
    Buy,
    Sell,
}

#[derive(Clone, Copy, Debug, PartialEq, Eq, Structural)]
pub enum OrderStatus {
    Open,
    Filled,
    Cancelled,
}

/// The order resting at one grid level.
#[derive(Clone, Copy, Debug, PartialEq, Eq, Structural)]
pub struct GridOrder {
    pub level: u32,
    pub price: i128,
    pub order_type: OrderSide,
    pub amount: i128,
    pub order_id: u64,
    pub status: OrderStatus,
}

/// A fill at a grid level.
#[derive(Clone, Copy, Debug, PartialEq, Eq, Structural)]
pub struct FilledGridOrder {
    pub level: u32,
    pub price: i128,
    pub order_type: OrderSide,
    pub amount: i128,
    pub filled_at: u64,
}

#[derive(Clone, Copy, Debug, PartialEq, Eq, Structural)]
pub enum GridStatus {
    Initializing,
    Active,
    Stopped,
}

/// A grid strategy: its shape, the orders resting at each level (keyed by
/// level), the fills so far and the profit they booked.
#[derive(Debug)]
pub struct GridStrategy {
    pub user: AccountId,
    pub asset_pair: u32,
    pub grid_config: GridConfig,
    pub active_orders: OrdMap<GridOrder>,
    pub filled_orders: Vec<FilledGridOrder>,
    pub total_profit: i128,
    pub status: GridStatus,
}

/// How a grid has done; rates in basis points.
#[derive(Clone, Copy, Debug, PartialEq, Eq, Structural)]
pub struct GridPerformance {
    pub total_profit: i128,
    pub roi_pct: u32,
    pub total_fills: u32,
    pub fill_rate: u32,
    pub avg_profit_per_fill: i128,
    pub active_orders: u32,
}

/// The book's persistent slots.
#[derive(Clone, Copy, Debug, PartialEq, Eq, Structural)]
pub enum GridDataKey {
    Strategy(u64),
    NextId,
}

/// A grid strategy as a value.
pub struct GridView {
    pub user: AccountId,
    pub asset_pair: u32,
    pub config: GridConfig,
    pub active: Map<u128, GridOrder>,
    pub filled: Seq<FilledGridOrder>,
    pub total_profit: i128,
    pub status: GridStatus,
}

impl GridStrategy {
    pub open spec fn view(&self) -> GridView {
        GridView {
            user: self.user,
            asset_pair: self.asset_pair,
            config: self.grid_config,
            active: self.active_orders@,
            filled: self.filled_orders@,
            total_profit: self.total_profit,
            status: self.status,
        }
    }
}

/// The strategies as values.
pub open spec fn grid_views(m: Map<u128, GridStrategy>) -> Map<u128, GridView> {
    m.map_values(|s: GridStrategy| s@)
}

/// Levels fit an `i32`, and each resting order sits at the level it is
/// keyed by; a grid has at least three levels.
pub open spec fn grid_ok(g: GridView) -> bool {
    &&& 3 <= g.config.num_grids <= 50
    &&& forall|k: u128| #[trigger] g.active.contains_key(k) ==> k <= i32::MAX && g.active[k].level == k
    &&& forall|i: int| 0 <= i < g.filled.len() ==> #[trigger] g.filled[i].level <= i32::MAX
}

/// The id the exchange gives a limit order: a mix of the pair, the price
/// and the ledger sequence, wrapping at 2^64.
pub open spec fn order_id_of(asset_pair: u32, price: i128, seq: u32) -> u64 {
    ((asset_pair as int * 1_000_000_007 + (price as u64) as int + seq as int) % 0x1_0000_0000_0000_0000) as u64
}

/// Price of a grid level.
pub open spec fn level_price(c: GridConfig, level: int) -> int {
    c.lower_price + level * c.grid_spacing
}

/// Every level of the grid has a price within `i128`.
pub open spec fn levels_fit(c: GridConfig) -> bool {
    forall|l: int| 0 <= l < c.num_grids ==> in_i128(l * c.grid_spacing) && #[trigger] in_i128(level_price(c, l))
}

/// The orders after placing the first `k` levels over `m`: buys below
/// `current`, sells above, none at it.
pub open spec fn placed(m: Map<u128, GridOrder>, c: GridConfig, pair: u32, current: i128, seq: u32, k: int) -> Map<u128, GridOrder>
    decreases k,
{
    if k <= 0 {
        m
    } else {
        let prev = placed(m, c, pair, current, seq, k - 1);
        let p = level_price(c, k - 1);
        if p == current {
            prev
        } else {
            prev.insert((k - 1) as u128, GridOrder {
                level: (k - 1) as u32,
                price: p as i128,
                order_type: if p < current { OrderSide::Buy } else { OrderSide::Sell },
                amount: c.order_size_per_grid,
                order_id: order_id_of(pair, p as i128, seq),
                status: OrderStatus::Open,
            })
        }
    }
}

/// Two levels are next to each other.
pub open spec fn adjacent(a: u32, b: u32) -> bool {
    a - b == 1 || b - a == 1
}

/// The profit a fill books against the latest opposite fill at an adjacent
/// level among `filled`, if there is one: the spread times the amount, over
/// the buy price.
pub open spec fn grid_profit(filled: Seq<FilledGridOrder>, order: GridOrder, fill_price: i128, fill_amount: i128) -> Option<int>
    decreases filled.len(),
{
    if filled.len() == 0 {
        None
    } else {
        let prev = filled.last();
        if prev.order_type != order.order_type && adjacent(prev.level, order.level) {
            Some(match order.order_type {
                OrderSide::Buy => if fill_price > 0 { tdiv((prev.price - fill_price) * fill_amount, fill_price as int) } else { 0 },
                OrderSide::Sell => if prev.price > 0 { tdiv((fill_price - prev.price) * fill_amount, prev.price as int) } else { 0 },
            })
        } else {
            grid_profit(filled.drop_last(), order, fill_price, fill_amount)
        }
    }
}

/// The arithmetic of booking a fill stays within `i128`.
pub open spec fn profit_fits(filled: Seq<FilledGridOrder>, order: GridOrder, fill_price: i128, fill_amount: i128) -> bool
    decreases filled.len(),
{
    if filled.len() == 0 {
        true
    } else {
        let prev = filled.last();
        if prev.order_type != order.order_type && adjacent(prev.level, order.level) {
            match order.order_type {
                OrderSide::Buy => fill_price > 0 ==> in_i128(prev.price - fill_price) && in_i128((prev.price - fill_price) * fill_amount),
                OrderSide::Sell => prev.price > 0 ==> in_i128(fill_price - prev.price) && in_i128((fill_price - prev.price) * fill_amount),
            }
        } else {
            profit_fits(filled.drop_last(), order, fill_price, fill_amount)
        }
    }
}

/// Strategies by id, the next id, and the current price of each pair.
pub struct GridBook {
    pub strategies: OrdMap<GridStrategy>,
    pub next_id: u64,
    pub prices: OrdMap<i128>,
}

impl GridBook {
    pub open spec fn wf(&self) -> bool {
        forall|k: u128| #[trigger] self.strategies@.contains_key(k) ==> grid_ok(self.strategies@[k]@)
    }

    /// The current price of a pair (0 when unknown).
    pub open spec fn price_of(&self, pair: u32) -> i128 {
        if self.prices@.contains_key(pair as u128) { self.prices@[pair as u128] } else { 0 }
    }

    pub fn new() -> (b: Self)
        ensures
            b.wf(),
            b.strategies@ == Map::<u128, GridStrategy>::empty(),
            b.next_id == 0,
            b.prices@ == Map::<u128, i128>::empty(),
    {
        GridBook { strategies: OrdMap::new(), next_id: 0, prices: OrdMap::new() }
    }

    /// Sets the current price of a pair.
    pub fn set_mock_price(&mut self, asset_pair: u32, price: i128)
        ensures
            final(self).prices@ == old(self).prices@.insert(asset_pair as u128, price),
            final(self).strategies@ == old(self).strategies@,
            final(self).next_id == old(self).next_id,
    {
        self.prices.insert(asset_pair as u128, price);
    }

    fn get_current_price(&self, asset_pair: u32) -> (r: i128)
        ensures
            r == self.price_of(asset_pair),
    {
        match self.prices.get(asset_pair as u128) {
            Some(p) => *p,
            None => 0,
        }
    }

    /// The strategy with this id.
    pub fn load(&self, id: u64) -> (r: Result<&GridStrategy, AutoTradeError>)
        ensures
            self.strategies@.contains_key(id as u128) ==> r == Ok::<&GridStrategy, AutoTradeError>(&self.strategies@[id as u128]),
            !self.strategies@.contains_key(id as u128) ==> r == Err::<&GridStrategy, AutoTradeError>(AutoTradeError::SignalNotFound),
    {
        match self.strategies.get(id as u128) {
            Some(s) => Ok(s),
            None => Err(AutoTradeError::SignalNotFound),
        }
    }

    /// Opens a grid between `lower_price` and `upper_price` with
    /// `num_grids` levels (3 to 50), splitting `total_capital` evenly over
    /// the levels; no orders are placed yet.
    pub fn initialize_grid_strategy(&mut self, user: AccountId, asset_pair: u32, upper_price: i128, lower_price: i128,
        num_grids: u32, total_capital: i128) -> (r: Result<u64, AutoTradeError>)
        requires
            old(self).wf(),
            upper_price > lower_price ==> in_i128(upper_price - lower_price),
            old(self).next_id < u64::MAX,
        ensures
            final(self).wf(),
            final(self).prices@ == old(self).prices@,
            (upper_price <= lower_price || num_grids < 3 || num_grids > 50) ==> {
                &&& r == Err::<u64, AutoTradeError>(AutoTradeError::InvalidAmount)
                &&& grid_views(final(self).strategies@) == grid_views(old(self).strategies@)
                &&& final(self).next_id == old(self).next_id
            },
            !(upper_price <= lower_price || num_grids < 3 || num_grids > 50) ==> {
                let id = old(self).next_id;
                &&& r == Ok::<u64, AutoTradeError>(id)
                &&& final(self).next_id == id + 1
                &&& grid_views(final(self).strategies@) == grid_views(old(self).strategies@).insert(id as u128, GridView {
                    user,
                    asset_pair,
                    config: GridConfig {
                        upper_price,
                        lower_price,
                        num_grids,
                        grid_spacing: tdiv(upper_price - lower_price, num_grids - 1) as i128,
                        order_size_per_grid: tdiv(total_capital as int, num_grids as int) as i128,
                        rebalance_on_fill: true,
                    },
                    active: Map::empty(),
                    filled: Seq::empty(),
                    total_profit: 0,
                    status: GridStatus::Initializing,
                })
            },
    {
        if upper_price <= lower_price {
            return Err(AutoTradeError::InvalidAmount);
        }
        if num_grids < 3 || num_grids > 50 {
            return Err(AutoTradeError::InvalidAmount);
        }
        let grid_spacing = div_toward_zero(upper_price - lower_price, (num_grids - 1) as i128);
        let order_size_per_grid = div_toward_zero(total_capital, num_grids as i128);
        let strategy = GridStrategy {
            user,
            asset_pair,
            grid_config: GridConfig {
                upper_price,
                lower_price,
                num_grids,
                grid_spacing,
                order_size_per_grid,
                rebalance_on_fill: true,
            },
            active_orders: OrdMap::new(),
            filled_orders: Vec::new(),
            total_profit: 0,
            status: GridStatus::Initializing,
        };
        let id = self.next_id;
        self.next_id = id + 1;
        let ghost old_map = self.strategies@;
        self.strategies.insert(id as u128, strategy);
        proof {
            assert(grid_views(self.strategies@) =~= grid_views(old_map).insert(id as u128, strategy@));
        }
        Ok(id)
    }
}

impl GridBook {
    /// Places an order at every level but the one at the current price:
    /// buys below it, sells above it; the grid becomes active.
    pub fn place_grid_orders(&mut self, strategy_id: u64, seq: u32) -> (r: Result<(), AutoTradeError>)
        requires
            old(self).wf(),
            old(self).strategies@.contains_key(strategy_id as u128) ==> levels_fit(old(self).strategies@[strategy_id as u128].grid_config),
        ensures
            final(self).wf(),
            final(self).prices@ == old(self).prices@,
            final(self).next_id == old(self).next_id,
            !old(self).strategies@.contains_key(strategy_id as u128) ==> {
                &&& r == Err::<(), AutoTradeError>(AutoTradeError::SignalNotFound)
                &&& grid_views(final(self).strategies@) == grid_views(old(self).strategies@)
            },
            old(self).strategies@.contains_key(strategy_id as u128) ==> {
                let g = old(self).strategies@[strategy_id as u128]@;
                &&& r is Ok
                &&& grid_views(final(self).strategies@) == grid_views(old(self).strategies@).insert(strategy_id as u128, GridView {
                    active: placed(g.active, g.config, g.asset_pair, old(self).price_of(g.asset_pair), seq, g.config.num_grids as int),
                    status: GridStatus::Active,
                    ..g
                })
            },
    {
        if !self.strategies.contains_key(strategy_id as u128) {
            return Err(AutoTradeError::SignalNotFound);
        }
        let ghost old_map = self.strategies@;
        let mut strategy = self.strategies.remove(strategy_id as u128).unwrap();
        let current_price = self.get_current_price(strategy.asset_pair);
        let ghost g = strategy@;
        Self::place_levels(&mut strategy, current_price, seq);
        strategy.status = GridStatus::Active;
        self.strategies.insert(strategy_id as u128, strategy);
        proof {
            assert(grid_views(self.strategies@) =~= grid_views(old_map).insert(strategy_id as u128, strategy@));
            assert forall|k: u128| #[trigger] self.strategies@.contains_key(k) implies grid_ok(self.strategies@[k]@) by {
                if k != strategy_id as u128 {
                    assert(old_map.contains_key(k));
                }
            }
        }
        Ok(())
    }

    fn place_levels(strategy: &mut GridStrategy, current_price: i128, seq: u32)
        requires
            grid_ok(old(strategy)@),
            levels_fit(old(strategy).grid_config),
        ensures
            grid_ok(final(strategy)@),
            final(strategy)@ == (GridView {
                active: placed(old(strategy)@.active, old(strategy).grid_config, old(strategy).asset_pair, current_price, seq,
                    old(strategy).grid_config.num_grids as int),
                ..old(strategy)@
            }),
    {
        let ghost g = strategy@;
        let c = strategy.grid_config;
        let mut level: u32 = 0;
        while level < c.num_grids
            invariant
                c == g.config,
                levels_fit(c),
                3 <= c.num_grids <= 50,
                level <= c.num_grids,
                strategy@ == (GridView { active: placed(g.active, c, g.asset_pair, current_price, seq, level as int), ..g }),
                grid_ok(strategy@),
            decreases c.num_grids - level,
        {
            assert(in_i128(level_price(c, level as int)));
            let grid_price = c.lower_price + (level as i128) * c.grid_spacing;
            if grid_price != current_price {
                let order_type = if grid_price < current_price { OrderSide::Buy } else { OrderSide::Sell };
                let order_id = place_limit_order(strategy.asset_pair, grid_price, seq);
                strategy.active_orders.insert(level as u128, GridOrder {
                    level,
                    price: grid_price,
                    order_type,
                    amount: c.order_size_per_grid,
                    order_id,
                    status: OrderStatus::Open,
                });
            }
            level = level + 1;
        }
    }
}

/// The order that replaces a filled one at `level`: a buy if the level is
/// below the current price, else a sell.
pub open spec fn replacement_order(c: GridConfig, pair: u32, current: i128, level: u64, seq: u32) -> GridOrder {
    let p = level_price(c, level as int);
    GridOrder {
        level: level as u32,
        price: p as i128,
        order_type: if p < current { OrderSide::Buy } else { OrderSide::Sell },
        amount: c.order_size_per_grid,
        order_id: order_id_of(pair, p as i128, seq),
        status: OrderStatus::Open,
    }
}

/// A level's price can be computed.
pub open spec fn level_fits(c: GridConfig, level: int) -> bool {
    in_i128(level * c.grid_spacing) && in_i128(level_price(c, level))
}

/// The lowest level whose resting order has this id.
pub open spec fn is_first_match(active: Map<u128, GridOrder>, order_id: u64, k: u128) -> bool {
    &&& active.contains_key(k)
    &&& active[k].order_id == order_id
    &&& forall|j: u128| #[trigger] active.contains_key(j) && active[j].order_id == order_id ==> k <= j
}

pub open spec fn has_match(active: Map<u128, GridOrder>, order_id: u64) -> bool {
    exists|k: u128| #[trigger] active.contains_key(k) && active[k].order_id == order_id
}

pub open spec fn first_match(active: Map<u128, GridOrder>, order_id: u64) -> u128 {
    choose|k: u128| is_first_match(active, order_id, k)
}

/// The record of a fill of `o`.
pub open spec fn fill_record(o: GridOrder, fill_price: i128, fill_amount: i128, now: u64) -> FilledGridOrder {
    FilledGridOrder { level: o.level, price: fill_price, order_type: o.order_type, amount: fill_amount, filled_at: now }
}

/// The profit booked by a fill, or 0 when there is no opposite fill next to it.
pub open spec fn booked(g: GridView, o: GridOrder, fill_price: i128, fill_amount: i128, now: u64) -> int {
    match grid_profit(g.filled.push(fill_record(o, fill_price, fill_amount, now)), o, fill_price, fill_amount) {
        Some(p) => p,
        None => 0,
    }
}

/// The grid after the order at `level` fills.
pub open spec fn after_fill(g: GridView, level: u128, fill_price: i128, fill_amount: i128, now: u64, current: i128, seq: u32) -> GridView {
    let o = g.active[level];
    let active = if g.config.rebalance_on_fill {
        g.active.insert(level, replacement_order(g.config, g.asset_pair, current, level as u64, seq))
    } else {
        g.active.remove(level)
    };
    GridView {
        active,
        filled: g.filled.push(fill_record(o, fill_price, fill_amount, now)),
        total_profit: (g.total_profit + booked(g, o, fill_price, fill_amount, now)) as i128,
        ..g
    }
}

/// Booking a fill of any order with this id stays within `i128`.
pub open spec fn fill_fits(g: GridView, order_id: u64, fill_price: i128, fill_amount: i128, now: u64) -> bool {
    forall|k: u128| #[trigger] g.active.contains_key(k) && g.active[k].order_id == order_id ==> {
        let o = g.active[k];
        &&& profit_fits(g.filled.push(fill_record(o, fill_price, fill_amount, now)), o, fill_price, fill_amount)
        &&& in_i128(g.total_profit + booked(g, o, fill_price, fill_amount, now))
        &&& level_fits(g.config, k as int)
    }
}

impl GridBook {
    /// Replaces the order at `filled_level` with a fresh one: a buy if the
    /// level is below the current price, else a sell.
    pub fn rebalance_grid_level(&mut self, strategy_id: u64, filled_level: u64, seq: u32) -> (r: Result<(), AutoTradeError>)
        requires
            old(self).wf(),
            old(self).strategies@.contains_key(strategy_id as u128) ==> filled_level <= i32::MAX
                && level_fits(old(self).strategies@[strategy_id as u128].grid_config, filled_level as int),
        ensures
            final(self).wf(),
            final(self).prices@ == old(self).prices@,
            final(self).next_id == old(self).next_id,
            !old(self).strategies@.contains_key(strategy_id as u128) ==> {
                &&& r == Err::<(), AutoTradeError>(AutoTradeError::SignalNotFound)
                &&& grid_views(final(self).strategies@) == grid_views(old(self).strategies@)
            },
            old(self).strategies@.contains_key(strategy_id as u128) ==> {
                let g = old(self).strategies@[strategy_id as u128]@;
                &&& r is Ok
                &&& grid_views(final(self).strategies@) == grid_views(old(self).strategies@).insert(strategy_id as u128, GridView {
                    active: g.active.insert(filled_level as u128, replacement_order(g.config, g.asset_pair, old(self).price_of(g.asset_pair), filled_level, seq)),
                    ..g
                })
            },
    {
        if !self.strategies.contains_key(strategy_id as u128) {
            return Err(AutoTradeError::SignalNotFound);
        }
        let ghost old_map = self.strategies@;
        let mut strategy = self.strategies.remove(strategy_id as u128).unwrap();
        let current_price = self.get_current_price(strategy.asset_pair);
        Self::replace_level(&mut strategy, filled_level, current_price, seq);
        self.strategies.insert(strategy_id as u128, strategy);
        proof {
            assert(grid_views(self.strategies@) =~= grid_views(old_map).insert(strategy_id as u128, strategy@));
            assert forall|k: u128| #[trigger] self.strategies@.contains_key(k) implies grid_ok(self.strategies@[k]@) by {
                if k != strategy_id as u128 {
                    assert(old_map.contains_key(k));
                }
            }
        }
        Ok(())
    }

    fn replace_level(strategy: &mut GridStrategy, level: u64, current_price: i128, seq: u32)
        requires
            grid_ok(old(strategy)@),
            level <= i32::MAX,
            level_fits(old(strategy).grid_config, level as int),
        ensures
            grid_ok(final(strategy)@),
            final(strategy)@ == (GridView {
                active: old(strategy)@.active.insert(level as u128,
                    replacement_order(old(strategy).grid_config, old(strategy).asset_pair, current_price, level, seq)),
                ..old(strategy)@
            }),
    {
        let c = strategy.grid_config;
        let grid_price = c.lower_price + (level as i128) * c.grid_spacing;
        let order_type = if grid_price < current_price { OrderSide::Buy } else { OrderSide::Sell };
        let order_id = place_limit_order(strategy.asset_pair, grid_price, seq);
        strategy.active_orders.insert(level as u128, GridOrder {
            level: level as u32,
            price: grid_price,
            order_type,
            amount: c.order_size_per_grid,
            order_id,
            status: OrderStatus::Open,
        });
    }

    /// The lowest level whose resting order has this id.
    fn find_level(active: &OrdMap<GridOrder>, order_id: u64) -> (r: Option<u128>)
        ensures
            r is None <==> !has_match(active@, order_id),
            r matches Some(k) ==> is_first_match(active@, order_id, k),
    {
        let n = active.len();
        let mut i: usize = 0;
        while i < n
            invariant
                n == active.key_seq().len(),
                i <= n,
                forall|a: int, b: int| 0 <= a < b < active.key_seq().len() ==> #[trigger] active.key_seq()[a] < #[trigger] active.key_seq()[b],
                forall|k: u128| active@.contains_key(k) <==> active.key_seq().contains(k),
                forall|j: int| 0 <= j < i ==> active@.contains_key(#[trigger] active.key_seq()[j])
                    && active@[active.key_seq()[j]].order_id != order_id,
            decreases n - i,
        {
            let k = active.key_at(i);
            let o = active.value_at(i);
            if o.order_id == order_id {
                proof {
                    assert forall|j: u128| #[trigger] active@.contains_key(j) && active@[j].order_id == order_id implies k <= j by {
                        assert(active.key_seq().contains(j));
                        let idx = choose|idx: int| 0 <= idx < active.key_seq().len() && active.key_seq()[idx] == j;
                        if idx < i {
                            assert(active@[active.key_seq()[idx]].order_id != order_id);
                        } else if idx > i {
                            assert(active.key_seq()[i as int] < active.key_seq()[idx]);
                        }
                    }
                }
                return Some(k);
            }
            i = i + 1;
        }
        proof {
            assert forall|k: u128| #[trigger] active@.contains_key(k) implies active@[k].order_id != order_id by {
                assert(active.key_seq().contains(k));
                let idx = choose|idx: int| 0 <= idx < active.key_seq().len() && active.key_seq()[idx] == k;
                assert(active@[active.key_seq()[idx]].order_id != order_id);
            }
        }
        None
    }

    /// The profit against the latest opposite fill next to `order`, if any.
    fn calculate_grid_profit(filled: &Vec<FilledGridOrder>, order: &GridOrder, fill_price: i128, fill_amount: i128) -> (r: Option<i128>)
        requires
            profit_fits(filled@, *order, fill_price, fill_amount),
            order.level <= i32::MAX,
            forall|i: int| 0 <= i < filled@.len() ==> #[trigger] filled@[i].level <= i32::MAX,
        ensures
            r == (match grid_profit(filled@, *order, fill_price, fill_amount) { Some(p) => Some(p as i128), None => None }),
            r matches Some(p) ==> grid_profit(filled@, *order, fill_price, fill_amount) == Some(p as int),
    {
        let ghost f = filled@;
        let mut i: usize = filled.len();
        proof { assert(f.take(i as int) =~= f); }
        while i > 0
            invariant
                f == filled@,
                i <= f.len(),
                order.level <= i32::MAX,
                forall|j: int| 0 <= j < f.len() ==> #[trigger] f[j].level <= i32::MAX,
                grid_profit(f, *order, fill_price, fill_amount) == grid_profit(f.take(i as int), *order, fill_price, fill_amount),
                profit_fits(f.take(i as int), *order, fill_price, fill_amount),
            decreases i,
        {
            let prev = filled[i - 1];
            proof {
                assert(f.take(i as int).last() == prev);
                assert(f.take(i as int).drop_last() =~= f.take(i - 1));
            }
            let gap: i64 = prev.level as i64 - order.level as i64;
            if prev.order_type != order.order_type && (gap == 1 || gap == -1) {
                let profit = match order.order_type {
                    OrderSide::Buy => if fill_price > 0 {
                        div_toward_zero((prev.price - fill_price) * fill_amount, fill_price)
                    } else {
                        0
                    },
                    OrderSide::Sell => if prev.price > 0 {
                        div_toward_zero((fill_price - prev.price) * fill_amount, prev.price)
                    } else {
                        0
                    },
                };
                return Some(profit);
            }
            i = i - 1;
        }
        proof { assert(f.take(0) =~= Seq::<FilledGridOrder>::empty()); }
        None
    }
}

/// The price has left the grid's range.
pub open spec fn out_of_range(c: GridConfig, current: i128) -> bool {
    current > c.upper_price || current < c.lower_price
}

/// The grid re-centred on `current`, keeping its width and level count.
pub open spec fn recentred(c: GridConfig, current: i128) -> GridConfig {
    let range = c.upper_price - c.lower_price;
    GridConfig {
        upper_price: (current + tdiv(range, 2)) as i128,
        lower_price: (current - tdiv(range, 2)) as i128,
        grid_spacing: tdiv(range, c.num_grids - 1) as i128,
        ..c
    }
}

/// Re-centring on `current` stays within `i128`.
pub open spec fn recentre_fits(c: GridConfig, current: i128) -> bool {
    let range = c.upper_price - c.lower_price;
    &&& in_i128(range)
    &&& in_i128(current + tdiv(range, 2))
    &&& in_i128(current - tdiv(range, 2))
    &&& levels_fit(recentred(c, current))
}

/// The metrics of a grid.
pub open spec fn performance_of(g: GridView) -> GridPerformance {
    let fills = g.filled.len() as int;
    let capital = g.config.order_size_per_grid * g.config.num_grids;
    GridPerformance {
        total_profit: g.total_profit,
        roi_pct: if capital > 0 { tdiv(g.total_profit * 10_000, capital) as u32 } else { 0 },
        total_fills: fills as u32,
        fill_rate: ((fills * 10_000) / (g.config.num_grids * 2)) as u32,
        avg_profit_per_fill: if fills > 0 { tdiv(g.total_profit as int, fills) as i128 } else { 0 },
        active_orders: g.active.dom().len() as u32,
    }
}

/// The metrics fit their types.
pub open spec fn performance_fits(g: GridView) -> bool {
    &&& g.filled.len() * 10_000 <= u32::MAX
    &&& in_i128(g.config.order_size_per_grid * g.config.num_grids)
    &&& in_i128(g.total_profit * 10_000)
    &&& g.active.dom().len() <= u32::MAX
}

impl GridBook {
    /// Books the fill of the order with this id: it leaves its level, the
    /// fill is recorded, the profit against the latest opposite fill next
    /// to it is added, and (when the grid rebalances) a fresh order takes
    /// its level.
    pub fn on_grid_order_filled(&mut self, strategy_id: u64, order_id: u64, fill_price: i128, fill_amount: i128, now: u64, seq: u32)
        -> (r: Result<(), AutoTradeError>)
        requires
            old(self).wf(),
            old(self).strategies@.contains_key(strategy_id as u128) ==> fill_fits(old(self).strategies@[strategy_id as u128]@, order_id, fill_price, fill_amount, now),
        ensures
            final(self).wf(),
            final(self).prices@ == old(self).prices@,
            final(self).next_id == old(self).next_id,
            (!old(self).strategies@.contains_key(strategy_id as u128)
                || !has_match(old(self).strategies@[strategy_id as u128]@.active, order_id)) ==> {
                &&& r == Err::<(), AutoTradeError>(AutoTradeError::SignalNotFound)
                &&& grid_views(final(self).strategies@) == grid_views(old(self).strategies@)
            },
            (old(self).strategies@.contains_key(strategy_id as u128)
                && has_match(old(self).strategies@[strategy_id as u128]@.active, order_id)) ==> {
                let g = old(self).strategies@[strategy_id as u128]@;
                &&& r is Ok
                &&& grid_views(final(self).strategies@) == grid_views(old(self).strategies@).insert(strategy_id as u128,
                    after_fill(g, first_match(g.active, order_id), fill_price, fill_amount, now, old(self).price_of(g.asset_pair), seq))
            },
    {
        let level = match self.strategies.get(strategy_id as u128) {
            None => return Err(AutoTradeError::SignalNotFound),
            Some(s) => match Self::find_level(&s.active_orders, order_id) {
                None => return Err(AutoTradeError::SignalNotFound),
                Some(k) => k,
            },
        };
        let ghost old_map = self.strategies@;
        let ghost g = old_map[strategy_id as u128]@;
        proof {
            let c = first_match(g.active, order_id);
            assert(is_first_match(g.active, order_id, c));
            assert(g.active.contains_key(c));
            assert(level <= c && c <= level);
        }
        let mut strategy = self.strategies.remove(strategy_id as u128).unwrap();
        let current_price = self.get_current_price(strategy.asset_pair);
        let order = *strategy.active_orders.get(level).unwrap();
        strategy.active_orders.remove(level);
        strategy.filled_orders.push(FilledGridOrder {
            level: order.level,
            price: fill_price,
            order_type: order.order_type,
            amount: fill_amount,
            filled_at: now,
        });
        proof {
            assert(strategy.filled_orders@ == g.filled.push(fill_record(order, fill_price, fill_amount, now)));
        }
        if let Some(profit) = Self::calculate_grid_profit(&strategy.filled_orders, &order, fill_price, fill_amount) {
            strategy.total_profit = strategy.total_profit + profit;
        }
        if strategy.grid_config.rebalance_on_fill {
            Self::replace_level(&mut strategy, level as u64, current_price, seq);
        }
        self.strategies.insert(strategy_id as u128, strategy);
        proof {
            let expected = after_fill(g, level, fill_price, fill_amount, now, current_price, seq);
            assert(strategy@.active =~= expected.active);
            assert(strategy@ == expected);
            assert(grid_views(self.strategies@) =~= grid_views(old_map).insert(strategy_id as u128, strategy@));
            assert forall|k: u128| #[trigger] self.strategies@.contains_key(k) implies grid_ok(self.strategies@[k]@) by {
                if k != strategy_id as u128 {
                    assert(old_map.contains_key(k));
                }
            }
        }
        Ok(())
    }

    /// When the price has left the grid's range, cancels every order,
    /// re-centres the grid on the price (same width and levels) and places
    /// a fresh set of orders; otherwise leaves the grid as it is.
    pub fn adjust_grid_to_price_movement(&mut self, strategy_id: u64, seq: u32) -> (r: Result<(), AutoTradeError>)
        requires
            old(self).wf(),
            old(self).strategies@.contains_key(strategy_id as u128) ==> {
                let g = old(self).strategies@[strategy_id as u128]@;
                out_of_range(g.config, old(self).price_of(g.asset_pair)) ==> recentre_fits(g.config, old(self).price_of(g.asset_pair))
            },
        ensures
            final(self).wf(),
            final(self).prices@ == old(self).prices@,
            final(self).next_id == old(self).next_id,
            !old(self).strategies@.contains_key(strategy_id as u128) ==> {
                &&& r == Err::<(), AutoTradeError>(AutoTradeError::SignalNotFound)
                &&& grid_views(final(self).strategies@) == grid_views(old(self).strategies@)
            },
            old(self).strategies@.contains_key(strategy_id as u128) ==> {
                let g = old(self).strategies@[strategy_id as u128]@;
                let cur = old(self).price_of(g.asset_pair);
                let c = recentred(g.config, cur);
                &&& r is Ok
                &&& !out_of_range(g.config, cur) ==> grid_views(final(self).strategies@) == grid_views(old(self).strategies@)
                &&& out_of_range(g.config, cur) ==> grid_views(final(self).strategies@) == grid_views(old(self).strategies@).insert(strategy_id as u128,
                    GridView { config: c, active: placed(Map::empty(), c, g.asset_pair, cur, seq, c.num_grids as int), status: GridStatus::Active, ..g })
            },
    {
        let asset_pair = match self.strategies.get(strategy_id as u128) {
            None => return Err(AutoTradeError::SignalNotFound),
            Some(s) => s.asset_pair,
        };
        let current_price = self.get_current_price(asset_pair);
        let ghost old_map = self.strategies@;
        let ghost g = old_map[strategy_id as u128]@;
        let c = self.strategies.get(strategy_id as u128).unwrap().grid_config;
        if current_price > c.upper_price || current_price < c.lower_price {
            let mut strategy = self.strategies.remove(strategy_id as u128).unwrap();
            strategy.active_orders = OrdMap::new();
            let price_range = c.upper_price - c.lower_price;
            let half = div_toward_zero(price_range, 2);
            strategy.grid_config.upper_price = current_price + half;
            strategy.grid_config.lower_price = current_price - half;
            strategy.grid_config.grid_spacing = div_toward_zero(price_range, (c.num_grids - 1) as i128);
            self.strategies.insert(strategy_id as u128, strategy);
            proof {
                assert forall|k: u128| #[trigger] self.strategies@.contains_key(k) implies grid_ok(self.strategies@[k]@) by {
                    if k != strategy_id as u128 {
                        assert(old_map.contains_key(k));
                    }
                }
            }
            let ghost mid = self.strategies@;
            let res = self.place_grid_orders(strategy_id, seq);
            proof {
                assert(grid_views(mid) =~= grid_views(old_map).insert(strategy_id as u128, mid[strategy_id as u128]@));
            }
            res
        } else {
            Ok(())
        }
    }

    /// Profit, return on capital and fill rate (basis points), average
    /// profit per fill and resting orders of a grid.
    pub fn calculate_grid_performance(&self, strategy_id: u64) -> (r: Result<GridPerformance, AutoTradeError>)
        requires
            self.strategies@.contains_key(strategy_id as u128) ==> performance_fits(self.strategies@[strategy_id as u128]@),
            self.wf(),
        ensures
            !self.strategies@.contains_key(strategy_id as u128) ==> r == Err::<GridPerformance, AutoTradeError>(AutoTradeError::SignalNotFound),
            self.strategies@.contains_key(strategy_id as u128) ==>
                r == Ok::<GridPerformance, AutoTradeError>(performance_of(self.strategies@[strategy_id as u128]@)),
    {
        let strategy = self.load(strategy_id)?;
        let total_fills = strategy.filled_orders.len() as u32;
        let total_capital = strategy.grid_config.order_size_per_grid * strategy.grid_config.num_grids as i128;
        let roi_pct: u32 = if total_capital > 0 {
            div_toward_zero(strategy.total_profit * 10_000, total_capital) as u32
        } else {
            0
        };
        let expected_fills = strategy.grid_config.num_grids * 2;
        let fill_rate: u32 = (total_fills * 10_000) / expected_fills;
        let avg_profit_per_fill = if total_fills > 0 {
            div_toward_zero(strategy.total_profit, total_fills as i128)
        } else {
            0
        };
        let active_orders = strategy.active_orders.len() as u32;
        Ok(GridPerformance {
            total_profit: strategy.total_profit,
            roi_pct,
            total_fills,
            fill_rate,
            avg_profit_per_fill,
            active_orders,
        })
    }
}

/// Places a limit order and gives the exchange's id for it.
fn place_limit_order(asset_pair: u32, price: i128, seq: u32) -> (r: u64)
    ensures
        r == order_id_of(asset_pair, price, seq),
{
    let mixed: u128 = asset_pair as u128 * 1_000_000_007u128 + (price as u64) as u128 + seq as u128;
    (mixed % 0x1_0000_0000_0000_0000u128) as u64
}

/// On a rebalancing grid a fill leaves a fresh order at the filled level,
/// so the levels holding orders stay the same; the fill is recorded once.
pub proof fn law_fill_keeps_levels(g: GridView, level: u128, fill_price: i128, fill_amount: i128, now: u64, current: i128, seq: u32)
    requires
        g.active.contains_key(level),
        g.config.rebalance_on_fill,
    ensures
        after_fill(g, level, fill_price, fill_amount, now, current, seq).active.dom() == g.active.dom(),
        after_fill(g, level, fill_price, fill_amount, now, current, seq).filled.len() == g.filled.len() + 1,
{
    let a = after_fill(g, level, fill_price, fill_amount, now, current, seq);
    assert(a.active.dom() =~= g.active.dom());
}

} // verus!
