//! Trailing and fixed stop losses, and the automatic sale they trigger.
use vstd::prelude::*;
use crate::math::{in_i128, tdiv, min, max};
use crate::risk::{Position, RiskBook, RiskConfig};
use crate::AccountId;

verus! {

pub const BPS_DENOMINATOR: i128 = 10_000;
pub const MIN_TRAILING_STOP_PCT: u32 = 500;
pub const MAX_TRAILING_STOP_PCT: u32 = 2_500;

#[derive(Clone, Copy, Debug, PartialEq, Eq, Structural)]
pub enum StopTrigger {
    FixedStopLoss,
    TrailingStop,
}

#[derive(Clone, Copy, Debug, PartialEq, Eq, Structural)]
pub struct AutoSellResult {
    pub asset_id: u32,
    pub trigger: StopTrigger,
    pub trigger_price: i128,
    pub execution_price: i128,
    pub sold_amount: i128,
    pub remaining_amount: i128,
}

/// Trailing stop price: `trailing_stop_pct` basis points below `high_price`
/// (0 when there is no positive high).
pub open spec fn trailing_stop(high_price: int, trailing_stop_pct: int) -> int {
    if high_price <= 0 { 0 } else { tdiv(high_price * (10_000 - trailing_stop_pct), 10_000) }
}

/// The high a position trails from: its high price, else its entry price.
pub open spec fn trailing_base(p: Position) -> int {
    if p.high_price > 0 { p.high_price as int } else { p.entry_price as int }
}

/// Fixed stop: `stop_loss_pct` percent below the entry price.
pub open spec fn fixed_stop(p: Position, c: RiskConfig) -> int {
    tdiv(p.entry_price * (100 - c.stop_loss_pct), 100)
}

/// The stop computations of `p` under `c` stay within `i128`.
pub open spec fn stops_fit(p: Position, c: RiskConfig) -> bool {
    &&& in_i128(p.entry_price * (100 - c.stop_loss_pct))
    &&& (c.trailing_stop_enabled && trailing_base(p) > 0 ==> in_i128(trailing_base(p) * (10_000 - c.trailing_stop_pct)))
}

/// Which stop, if any, fires at `price`: the trailing stop is checked first.
pub open spec fn stop_trigger(p: Position, price: int, c: RiskConfig) -> Option<(StopTrigger, i128)> {
    if c.trailing_stop_enabled && price <= trailing_stop(trailing_base(p), c.trailing_stop_pct as int) {
        Some((StopTrigger::TrailingStop, trailing_stop(trailing_base(p), c.trailing_stop_pct as int) as i128))
    } else if price <= fixed_stop(p, c) {
        Some((StopTrigger::FixedStopLoss, fixed_stop(p, c) as i128))
    } else {
        None
    }
}

pub fn calculate_trailing_stop(high_price: i128, trailing_stop_pct: u32) -> (r: i128)
    requires
        high_price <= 0 || in_i128(high_price * (10_000 - trailing_stop_pct)),
    ensures
        r == trailing_stop(high_price as int, trailing_stop_pct as int),
{
    if high_price <= 0 {
        return 0;
    }
    high_price * (BPS_DENOMINATOR - trailing_stop_pct as i128) / BPS_DENOMINATOR
}

pub fn get_fixed_stop_price(position: &Position, config: &RiskConfig) -> (r: i128)
    requires
        in_i128(position.entry_price * (100 - config.stop_loss_pct)),
    ensures
        r == fixed_stop(*position, *config),
{
    position.entry_price * (100 - config.stop_loss_pct as i128) / 100
}

pub fn resolve_stop_trigger(position: &Position, current_price: i128, config: &RiskConfig) -> (r: Option<(StopTrigger, i128)>)
    requires
        stops_fit(*position, *config),
    ensures
        r == stop_trigger(*position, current_price as int, *config),
{
    if config.trailing_stop_enabled {
        let high = if position.high_price > 0 { position.high_price } else { position.entry_price };
        let trailing = calculate_trailing_stop(high, config.trailing_stop_pct);
        if current_price <= trailing {
            return Some((StopTrigger::TrailingStop, trailing));
        }
    }
    let fixed = get_fixed_stop_price(position, config);
    if current_price <= fixed {
        return Some((StopTrigger::FixedStopLoss, fixed));
    }
    None
}

/// Trailing stop price of the user's position in `asset_id`, when trailing
/// stops are enabled and the position exists.
pub fn get_trailing_stop_price(book: &RiskBook, user: AccountId, asset_id: u32, config: &RiskConfig) -> (r: Option<i128>)
    requires
        match book.position_spec(user, asset_id) {
            Some(p) => trailing_base(p) <= 0 || in_i128(trailing_base(p) * (10_000 - config.trailing_stop_pct)),
            None => true,
        },
    ensures
        r == (if !config.trailing_stop_enabled {
            None
        } else {
            match book.position_spec(user, asset_id) {
                Some(p) => Some(trailing_stop(trailing_base(p), config.trailing_stop_pct as int) as i128),
                None => None,
            }
        }),
{
    if !config.trailing_stop_enabled {
        return None;
    }
    match book.get_position(user, asset_id) {
        Some(position) => {
            let high = if position.high_price > 0 { position.high_price } else { position.entry_price };
            Some(calculate_trailing_stop(high, config.trailing_stop_pct))
        },
        None => None,
    }
}

/// The position after seeing `price`: its high rises to `price` when `price` is higher.
pub open spec fn raised_high(p: Position, price: i128) -> Position {
    if price > p.high_price { Position { high_price: price, ..p } } else { p }
}

/// Raise the high price of the user's position to `current_price` when it is
/// higher; returns the position as it stands afterwards.
pub fn update_position_high(book: &mut RiskBook, user: AccountId, asset_id: u32, current_price: i128) -> (r: Option<Position>)
    requires
        old(book).wf(),
    ensures
        final(book).wf(),
        r == match old(book).position_spec(user, asset_id) {
            Some(p) => Some(raised_high(p, current_price)),
            None => None,
        },
        final(book).position_spec(user, asset_id) == r,
        final(book).user_positions(user) == (match r {
            Some(q) => old(book).user_positions(user).insert(asset_id as u128, q),
            None => old(book).user_positions(user),
        }),
        forall|u: AccountId| u != user ==> #[trigger] final(book).user_positions(u) == old(book).user_positions(u),
        forall|u: AccountId, a: u32| (u != user || a != asset_id) ==> #[trigger] final(book).position_spec(u, a) == old(book).position_spec(u, a),
        forall|u: AccountId| u != user ==> #[trigger] final(book).holdings_spec(u) == old(book).holdings_spec(u),
        forall|u: AccountId| #[trigger] final(book).config_of(u) == old(book).config_of(u),
        final(book).prices_spec() == old(book).prices_spec(),
        forall|a: u32| #[trigger] final(book).history_count(a) == old(book).history_count(a),
        forall|a: u32| #[trigger] final(book).history_slots(a) == old(book).history_slots(a),
{
    match book.get_position(user, asset_id) {
        Some(position) => {
            if current_price > position.high_price {
                let raised = Position { high_price: current_price, ..position };
                book.set_position(user, asset_id, raised);
                Some(raised)
            } else {
                proof {
                    assert(old(book).user_positions(user).insert(asset_id as u128, position) =~= old(book).user_positions(user));
                }
                Some(position)
            }
        },
        None => None,
    }
}

/// The automatic sale for position `p` at `price`, given the liquidity quote
/// (the whole position when none is quoted).
pub open spec fn auto_sell(asset_id: u32, p: Position, price: i128, c: RiskConfig, liquidity: Option<i128>) -> Option<AutoSellResult> {
    match stop_trigger(p, price as int, c) {
        None => None,
        Some((trigger, trigger_price)) => {
            let available = match liquidity { Some(l) => l as int, None => p.amount as int };
            let sold = min(p.amount as int, max(available, 0));
            Some(AutoSellResult {
                asset_id,
                trigger,
                trigger_price,
                execution_price: price,
                sold_amount: sold as i128,
                remaining_amount: (p.amount - sold) as i128,
            })
        },
    }
}

/// Handle a new price for the user's position: record the price, raise the
/// position's high, and when a stop fires sell up to the available liquidity,
/// keeping the unsold remainder at `current_price`.
pub fn process_price_update(
    book: &mut RiskBook,
    user: AccountId,
    asset_id: u32,
    current_price: i128,
    available_liquidity: Option<i128>,
) -> (r: Option<AutoSellResult>)
    requires
        old(book).wf(),
        old(book).history_count(asset_id) < u32::MAX,
        match old(book).position_spec(user, asset_id) {
            Some(p) => stops_fit(raised_high(p, current_price), old(book).config_of(user))
                && in_i128(p.amount - min(p.amount as int, max(match available_liquidity { Some(l) => l as int, None => p.amount as int }, 0))),
            None => true,
        },
    ensures
        final(book).wf(),
        r == match old(book).position_spec(user, asset_id) {
            Some(p) => auto_sell(asset_id, raised_high(p, current_price), current_price, old(book).config_of(user), available_liquidity),
            None => None,
        },
        final(book).prices_spec() == old(book).prices_spec().insert(asset_id as u128, current_price),
        final(book).history_count(asset_id) == old(book).history_count(asset_id) + 1,
        final(book).position_spec(user, asset_id) == match old(book).position_spec(user, asset_id) {
            None => None,
            Some(p) => match r {
                Some(s) => if s.remaining_amount != p.amount {
                    Some(Position { amount: s.remaining_amount, entry_price: current_price, high_price: raised_high(p, current_price).high_price })
                } else {
                    Some(raised_high(p, current_price))
                },
                None => Some(raised_high(p, current_price)),
            },
        },
        final(book).user_positions(user) == (match final(book).position_spec(user, asset_id) {
            Some(q) => old(book).user_positions(user).insert(asset_id as u128, q),
            None => old(book).user_positions(user),
        }),
        forall|u: AccountId| u != user ==> #[trigger] final(book).user_positions(u) == old(book).user_positions(u),
        forall|u: AccountId, a: u32| (u != user || a != asset_id) ==> #[trigger] final(book).position_spec(u, a) == old(book).position_spec(u, a),
        forall|u: AccountId| #[trigger] final(book).config_of(u) == old(book).config_of(u),
        final(book).history_slots(asset_id) == (if old(book).history_count(asset_id) < 30 {
            old(book).history_slots(asset_id).push(current_price)
        } else {
            old(book).history_slots(asset_id).update(old(book).history_count(asset_id) % 30, current_price)
        }),
        forall|a: u32| a != asset_id ==> #[trigger] final(book).history_count(a) == old(book).history_count(a),
        forall|a: u32| a != asset_id ==> #[trigger] final(book).history_slots(a) == old(book).history_slots(a),
{
    let config = book.get_risk_config(user);
    book.set_asset_price(asset_id, current_price);
    book.record_price(asset_id, current_price);
    let _ = update_position_high(book, user, asset_id, current_price);
    let position = match book.get_position(user, asset_id) {
        Some(p) => p,
        None => return None,
    };
    let (trigger, trigger_price) = match resolve_stop_trigger(&position, current_price, &config) {
        Some(t) => t,
        None => return None,
    };
    let available = match available_liquidity {
        Some(l) => l,
        None => position.amount,
    };
    let nonneg = if available > 0 { available } else { 0 };
    let sold_amount = if position.amount < nonneg { position.amount } else { nonneg };
    let remaining_amount = position.amount - sold_amount;
    if remaining_amount != position.amount {
        book.update_position(user, asset_id, remaining_amount, current_price);
    }
    Some(AutoSellResult {
        asset_id,
        trigger,
        trigger_price,
        execution_price: current_price,
        sold_amount,
        remaining_amount,
    })
}

}
