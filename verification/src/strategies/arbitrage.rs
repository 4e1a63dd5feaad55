//! Arbitrage: price gaps between the order book and liquidity pools, and
//! profitable three-leg cycles through intermediate assets.
use vstd::prelude::*;
use crate::errors::AutoTradeError;
use crate::math::{div_toward_zero, in_i128, tdiv};
use crate::store::OrdMap;
use crate::AccountId;

verus! {

/// The persistent slots of the arbitrage module.
#[derive(Clone, Copy, Debug, PartialEq, Eq, Structural)]
pub enum ArbStorageKey {
    ArbitrageStats(AccountId),
    NextOpportunityId,
}

/// What an executed arbitrage reports: the profit expected and made, and
/// the trades it took.
#[derive(Clone, Debug, PartialEq, Eq)]
pub struct ArbitrageExecutedEvent {
    pub opportunity_id: u64,
    pub user: AccountId,
    pub expected_profit: i128,
    pub actual_profit: i128,
    pub trade_ids: Vec<u64>,
}

pub type Asset = u32;

/// Fixed-point scale of prices in cycle evaluation.
pub const PRECISION: i128 = 10_000_000;
pub const MAX_SINGLE_ARB: i128 = 100_000_000_000;
pub const USDC: Asset = 1;
pub const XLM: Asset = 2;
pub const BTC: Asset = 3;

#[derive(Clone, Copy, Debug, PartialEq, Eq, Structural)]
pub struct AssetPair {
    pub base: Asset,
    pub quote: Asset,
}

#[derive(Clone, Copy, Debug, PartialEq, Eq, Structural)]
pub enum LiquidityVenue {
    SDEX,
    LiquidityPool(u32),
}

#[derive(Clone, Copy, Debug, PartialEq, Eq, Structural)]
pub enum ArbitrageType {
    Simple,
    Triangular,
    Complex,
}

#[derive(Clone, Copy, Debug, PartialEq, Eq, Structural)]
pub enum OpportunityStatus {
    Detected,
    Executed,
    Failed,
    Expired,
}

#[derive(Clone, Copy, Debug, PartialEq, Eq, Structural)]
pub struct ArbLeg {
    pub venue: LiquidityVenue,
    pub asset_in: Asset,
    pub asset_out: Asset,
    pub amount_in: i128,
    pub expected_amount_out: i128,
    pub fee_bps: u32,
}

pub struct ArbitrageOpportunity {
    pub opportunity_id: u64,
    pub arb_type: ArbitrageType,
    pub path: Vec<ArbLeg>,
    pub expected_profit: i128,
    pub expected_profit_pct: u32,
    pub required_capital: i128,
    pub execution_deadline: u64,
    pub status: OpportunityStatus,
}

#[derive(Clone, Copy, Debug, PartialEq, Eq, Structural)]
pub struct ArbitrageStats {
    pub total_opportunities_detected: u64,
    pub total_executed: u64,
    pub total_failed: u64,
    pub total_profit: i128,
    pub avg_profit_pct: u32,
    pub success_rate: u32,
}

pub fn min(a: i128, b: i128) -> (r: i128)
    ensures
        r == (if a < b { a } else { b }),
{
    if a < b { a } else { b }
}

// ---------------------------------------------------------------------------
// Market readings. These are fixed quotes until venue feeds are connected.
// ---------------------------------------------------------------------------

pub open spec fn venue_liquidity_spec() -> int { 1_000_000_000 }
pub open spec fn slippage_bps_spec() -> int { 10 }
pub open spec fn best_price_spec() -> int { 10_000 }

fn get_venue_liquidity(_venue: &LiquidityVenue) -> (r: i128)
    ensures r == venue_liquidity_spec(),
{
    1_000_000_000
}

fn calculate_slippage(_venue: &LiquidityVenue, _amount: i128) -> (r: u32)
    ensures r == slippage_bps_spec(),
{
    10
}

pub open spec fn venue_fee_spec(venue: LiquidityVenue) -> u32 {
    match venue {
        LiquidityVenue::SDEX => 10,
        LiquidityVenue::LiquidityPool(_) => 30,
    }
}

pub fn get_venue_fee_bps(venue: &LiquidityVenue) -> (r: u32)
    ensures r == venue_fee_spec(*venue),
{
    match venue {
        LiquidityVenue::SDEX => 10,
        LiquidityVenue::LiquidityPool(_) => 30,
    }
}

/// Venue and price of the best quote for a pair.
fn get_best_price(_pair: AssetPair) -> (r: (LiquidityVenue, i128))
    ensures r.0 == LiquidityVenue::SDEX, r.1 == best_price_spec(),
{
    (LiquidityVenue::SDEX, 10_000)
}

/// Assets that can close a cycle.
pub open spec fn tradeable_assets() -> Seq<Asset> {
    seq![1u32, 2u32, 3u32]
}

/// Assets tried as the middle of a cycle.
pub open spec fn intermediaries() -> Seq<Asset> {
    seq![USDC, XLM, BTC]
}

// ---------------------------------------------------------------------------
// Sizing a two-venue trade
// ---------------------------------------------------------------------------

pub open spec fn eff_buy(buy_price: int) -> int { tdiv(buy_price * (10_000 + slippage_bps_spec()), 10_000) }
pub open spec fn eff_sell(sell_price: int) -> int { tdiv(sell_price * (10_000 - slippage_bps_spec()), 10_000) }

/// Profit of trading `amount` at the slipped prices, net of the 0.4% fees.
pub open spec fn net_profit(buy_price: int, sell_price: int, amount: int) -> int {
    tdiv((eff_sell(sell_price) - eff_buy(buy_price)) * amount, eff_buy(buy_price)) - tdiv(amount * 40, 10_000)
}

/// Step the size up by 1000 while the net profit keeps rising, up to the
/// venues' common liquidity; the last size that improved it.
pub open spec fn capital_search(buy_price: int, sell_price: int, max_capital: int, amount: int, best_amount: int, best_profit: int) -> int
    decreases max_capital - amount + 1000,
{
    if amount > max_capital || amount < 1000 || eff_buy(buy_price) == 0 {
        best_amount
    } else if net_profit(buy_price, sell_price, amount) > best_profit {
        capital_search(buy_price, sell_price, max_capital, amount + 1000, amount, net_profit(buy_price, sell_price, amount))
    } else {
        best_amount
    }
}

proof fn lemma_capital_bounds(buy_price: int, sell_price: int, max_capital: int, amount: int, best_amount: int, best_profit: int)
    requires
        0 <= best_amount <= max_capital,
    ensures
        0 <= capital_search(buy_price, sell_price, max_capital, amount, best_amount, best_profit) <= max_capital,
    decreases max_capital - amount + 1000,
{
    if !(amount > max_capital || amount < 1000 || eff_buy(buy_price) == 0)
        && net_profit(buy_price, sell_price, amount) > best_profit {
        lemma_capital_bounds(buy_price, sell_price, max_capital, amount + 1000, amount, net_profit(buy_price, sell_price, amount));
    }
}

pub open spec fn optimal_capital_spec(buy_price: int, sell_price: int) -> Result<i128, AutoTradeError> {
    if buy_price == 0 {
        Err(AutoTradeError::InvalidPriceData)
    } else {
        Ok(capital_search(buy_price, sell_price, venue_liquidity_spec(), 1000, 0, 0) as i128)
    }
}

pub open spec fn capital_fits(buy_price: int, sell_price: int) -> bool {
    &&& in_i128(buy_price * 10_010)
    &&& in_i128(sell_price * 9_990)
    &&& in_i128(eff_sell(sell_price) - eff_buy(buy_price))
    &&& in_i128((eff_sell(sell_price) - eff_buy(buy_price)) * 1_000_000_000 - 4_000_000)
    &&& in_i128((eff_sell(sell_price) - eff_buy(buy_price)) * -1_000_000_000 - 4_000_000)
}

/// The trade size with the best net profit between two venues.
pub fn calculate_optimal_arb_capital(buy_price: i128, sell_price: i128, buy_venue: &LiquidityVenue, sell_venue: &LiquidityVenue)
    -> (r: Result<i128, AutoTradeError>)
    requires
        capital_fits(buy_price as int, sell_price as int),
    ensures
        r == optimal_capital_spec(buy_price as int, sell_price as int),
{
    let buy_liquidity = get_venue_liquidity(buy_venue);
    let sell_liquidity = get_venue_liquidity(sell_venue);
    let max_capital = min(buy_liquidity, sell_liquidity);
    let mut optimal_amount: i128 = 0;
    let mut max_profit: i128 = 0;
    let mut amount: i128 = 1000;
    if buy_price == 0 {
        return Err(AutoTradeError::InvalidPriceData);
    }
    while amount <= max_capital
        invariant
            max_capital == venue_liquidity_spec(),
            1000 <= amount <= max_capital + 1000,
            capital_fits(buy_price as int, sell_price as int),
            buy_price != 0,
            capital_search(buy_price as int, sell_price as int, max_capital as int, 1000, 0, 0)
                == capital_search(buy_price as int, sell_price as int, max_capital as int, amount as int, optimal_amount as int, max_profit as int),
            in_i128(max_profit as int),
        ensures
            capital_search(buy_price as int, sell_price as int, max_capital as int, 1000, 0, 0) == optimal_amount,
        decreases max_capital + 1000 - amount,
    {
        let buy_slippage = calculate_slippage(buy_venue, amount);
        let sell_slippage = calculate_slippage(sell_venue, amount);
        let effective_buy_price = div_toward_zero(buy_price * (10000 + buy_slippage as i128), 10000);
        let effective_sell_price = div_toward_zero(sell_price * (10000 - sell_slippage as i128), 10000);
        if effective_buy_price == 0 {
            break;
        }
        let spread = effective_sell_price - effective_buy_price;
        assert(in_i128(spread * amount) && spread * amount > i128::MIN
            && crate::math::abs(spread * amount) + 4_000_000 <= i128::MAX) by (nonlinear_arith)
            requires in_i128(spread * 1_000_000_000 - 4_000_000), in_i128(spread * -1_000_000_000 - 4_000_000), 1000 <= amount <= 1_000_000_000;
        let gross_profit = div_toward_zero(spread * amount, effective_buy_price);
        assert(crate::math::abs(gross_profit as int) <= crate::math::abs(spread * amount)) by (nonlinear_arith)
            requires gross_profit as int == tdiv(spread * amount, effective_buy_price as int), effective_buy_price != 0;
        let fees = (amount * 40) / 10000;
        let net = gross_profit - fees;
        if net > max_profit {
            max_profit = net;
            optimal_amount = amount;
        } else {
            break;
        }
        amount = amount + 1000;
    }
    Ok(optimal_amount)
}


// ---------------------------------------------------------------------------
// Three-leg cycles
// ---------------------------------------------------------------------------

/// Amounts through a cycle started with 1000 units: after each leg, the net
/// after 0.9% fees on the start, and whether it beats the start.
pub open spec fn cycle_amounts(p1: int, p2: int, p3: int) -> (int, int, int, int) {
    let start = 1000 * 10_000_000;
    let l1 = tdiv(start * p1, 10_000_000);
    let l2 = tdiv(l1 * p2, 10_000_000);
    let l3 = tdiv(l2 * p3, 10_000_000);
    (l1, l2, l3, l3 - start * 90 / 10_000)
}

/// The legs of a cycle base -> intermediate -> quote -> base traded at
/// venues `v1`, `v2`, `v3` at prices `p1`, `p2`, `p3`.
pub open spec fn cycle_legs_via(base: Asset, inter: Asset, quote: Asset, v1: LiquidityVenue, v2: LiquidityVenue, v3: LiquidityVenue,
    p1: int, p2: int, p3: int) -> Seq<ArbLeg> {
    let a = cycle_amounts(p1, p2, p3);
    let start = 1000 * 10_000_000int;
    seq![
        ArbLeg { venue: v1, asset_in: base, asset_out: inter, amount_in: start as i128, expected_amount_out: a.0 as i128, fee_bps: 30 },
        ArbLeg { venue: v2, asset_in: inter, asset_out: quote, amount_in: a.0 as i128, expected_amount_out: a.1 as i128, fee_bps: 30 },
        ArbLeg { venue: v3, asset_in: quote, asset_out: base, amount_in: a.1 as i128, expected_amount_out: a.2 as i128, fee_bps: 30 },
    ]
}

/// The legs of a cycle traded on the exchange at prices `p1`, `p2`, `p3`.
pub open spec fn cycle_legs(base: Asset, inter: Asset, quote: Asset, p1: int, p2: int, p3: int) -> Seq<ArbLeg> {
    cycle_legs_via(base, inter, quote, LiquidityVenue::SDEX, LiquidityVenue::SDEX, LiquidityVenue::SDEX, p1, p2, p3)
}

/// The amounts of a cycle at these prices stay within `i128`.
pub open spec fn cycle_fits(p1: int, p2: int, p3: int) -> bool {
    let start = 1000 * 10_000_000int;
    let a = cycle_amounts(p1, p2, p3);
    &&& in_i128(start * p1)
    &&& in_i128(a.0 * p2)
    &&& in_i128(a.1 * p3)
    &&& in_i128(a.3)
    &&& in_i128((a.3 - start) * 10_000)
}

/// The profit of a cycle in basis points of its starting amount, as the
/// opportunity records it (truncated to `u32`).
pub open spec fn cycle_profit_pct(p1: int, p2: int, p3: int) -> u32 {
    let start = 1000 * 10_000_000int;
    #[verifier::truncate] (tdiv((cycle_amounts(p1, p2, p3).3 - start) * 10_000, start) as u32)
}

/// A three-leg cycle of 1000 units of `base` through `inter` and `quote` at
/// the quoted venues and prices: its legs, its profit after 0.9% fees and
/// that profit in basis points, when the cycle ends above its start.
pub fn evaluate_cycle(base: Asset, inter: Asset, quote: Asset, v1: LiquidityVenue, p1: i128, v2: LiquidityVenue, p2: i128,
    v3: LiquidityVenue, p3: i128) -> (r: Option<(Vec<ArbLeg>, i128, u32)>)
    requires
        cycle_fits(p1 as int, p2 as int, p3 as int),
    ensures
        r is Some <==> cycle_amounts(p1 as int, p2 as int, p3 as int).3 > 1000 * 10_000_000,
        r matches Some(o) ==> {
            &&& o.0@ == cycle_legs_via(base, inter, quote, v1, v2, v3, p1 as int, p2 as int, p3 as int)
            &&& o.1 == cycle_amounts(p1 as int, p2 as int, p3 as int).3 - 1000 * 10_000_000
            &&& o.2 == cycle_profit_pct(p1 as int, p2 as int, p3 as int)
        },
{
    let start_amount: i128 = 1000 * PRECISION;
    let after_leg1 = div_toward_zero(start_amount * p1, PRECISION);
    let after_leg2 = div_toward_zero(after_leg1 * p2, PRECISION);
    let after_leg3 = div_toward_zero(after_leg2 * p3, PRECISION);
    let total_fees = (start_amount * 90) / 10000;
    let net_amount = after_leg3 - total_fees;
    if net_amount > start_amount {
        let profit_pct = div_toward_zero((net_amount - start_amount) * 10000, start_amount);
        let mut path: Vec<ArbLeg> = Vec::new();
        path.push(ArbLeg { venue: v1, asset_in: base, asset_out: inter, amount_in: start_amount, expected_amount_out: after_leg1, fee_bps: 30 });
        path.push(ArbLeg { venue: v2, asset_in: inter, asset_out: quote, amount_in: after_leg1, expected_amount_out: after_leg2, fee_bps: 30 });
        path.push(ArbLeg { venue: v3, asset_in: quote, asset_out: base, amount_in: after_leg2, expected_amount_out: after_leg3, fee_bps: 30 });
        proof {
            assert(path@ =~= cycle_legs_via(base, inter, quote, v1, v2, v3, p1 as int, p2 as int, p3 as int));
        }
        Some((path, net_amount - start_amount, profit_pct as u32))
    } else {
        None
    }
}

/// The first `k` of the nine (intermediate, quote) pairs that can form a
/// cycle from `base`: all three assets distinct.
pub open spec fn candidates_prefix(base: Asset, k: int) -> Seq<(Asset, Asset)>
    decreases k,
{
    if k <= 0 {
        Seq::empty()
    } else {
        let prev = candidates_prefix(base, k - 1);
        let c = (intermediaries()[(k - 1) / 3], tradeable_assets()[(k - 1) % 3]);
        if c.0 != base && c.1 != base && c.1 != c.0 { prev.push(c) } else { prev }
    }
}

/// Candidate (intermediate, quote) pairs for cycles from `base`, in order.
pub open spec fn cycle_candidates(base: Asset) -> Seq<(Asset, Asset)> {
    candidates_prefix(base, 9)
}

/// Profitable cycles among the first `k` candidates, at the best quotes.
pub open spec fn profitable_cycles(base: Asset, cands: Seq<(Asset, Asset)>, k: int) -> Seq<(Asset, Asset)>
    decreases k,
{
    if k <= 0 {
        Seq::empty()
    } else {
        let prev = profitable_cycles(base, cands, k - 1);
        let p = best_price_spec();
        if cycle_amounts(p, p, p).3 > 1000 * 10_000_000 { prev.push(cands[k - 1]) } else { prev }
    }
}

impl ArbBook {
    /// Profitable three-leg cycles from `base_asset` through each
    /// intermediary and quote asset; each gets the next opportunity id.
    pub fn find_triangular_arbitrage(&mut self, base_asset: Asset, now: u64) -> (r: Result<Vec<ArbitrageOpportunity>, AutoTradeError>)
        requires
            old(self).next_opportunity_id + 9 <= u64::MAX,
            now + 30 <= u64::MAX,
        ensures
            final(self).stats@ == old(self).stats@,
            ({
                let found = profitable_cycles(base_asset, cycle_candidates(base_asset), cycle_candidates(base_asset).len() as int);
                let p = best_price_spec();
                &&& r matches Ok(v) && v@.len() == found.len()
                &&& final(self).next_opportunity_id == old(self).next_opportunity_id + found.len()
                &&& forall|i: int| 0 <= i < found.len() ==> {
                    let o = #[trigger] r->Ok_0@[i];
                    let a = cycle_amounts(p, p, p);
                    &&& o.opportunity_id == old(self).next_opportunity_id + i
                    &&& o.arb_type == ArbitrageType::Triangular
                    &&& o.path@ == cycle_legs(base_asset, found[i].0, found[i].1, p, p, p)
                    &&& o.expected_profit == a.3 - 1000 * 10_000_000
                    &&& o.expected_profit_pct == cycle_profit_pct(p, p, p)
                    &&& o.required_capital == 1000 * 10_000_000
                    &&& o.execution_deadline == now + 30
                    &&& o.status == OpportunityStatus::Detected
                }
            }),
    {
        let ghost cands = cycle_candidates(base_asset);
        let mids: [Asset; 3] = [USDC, XLM, BTC];
        let mut candidates: Vec<(Asset, Asset)> = Vec::new();
        let mut i: usize = 0;
        while i < 9
            invariant
                i <= 9,
                mids@ == intermediaries(),
                candidates@ == candidates_prefix(base_asset, i as int),
                candidates@.len() <= i,
            decreases 9 - i,
        {
            let intermediate = mids[i / 3];
            let quote_asset = (i % 3) as u32 + 1;
            assert((intermediate, quote_asset) == (intermediaries()[((i + 1) - 1) / 3], tradeable_assets()[((i + 1) - 1) % 3]));
            if intermediate != base_asset && quote_asset != base_asset && quote_asset != intermediate {
                candidates.push((intermediate, quote_asset));
            }
            i = i + 1;
        }
        assert(candidates@ == cands);
        let mut opportunities: Vec<ArbitrageOpportunity> = Vec::new();
        let mut c: usize = 0;
        while c < candidates.len()
            invariant
                candidates@ == cands,
                cands.len() <= 9,
                c <= cands.len(),
                now + 30 <= u64::MAX,
                old(self).next_opportunity_id + 9 <= u64::MAX,
                self.stats@ == old(self).stats@,
                ({
                    let found = profitable_cycles(base_asset, cands, c as int);
                    let p = best_price_spec();
                    &&& opportunities@.len() == found.len()
                    &&& found.len() <= c
                    &&& self.next_opportunity_id == old(self).next_opportunity_id + found.len()
                    &&& forall|i: int| 0 <= i < found.len() ==> {
                        let o = #[trigger] opportunities@[i];
                        let a = cycle_amounts(p, p, p);
                        &&& o.opportunity_id == old(self).next_opportunity_id + i
                        &&& o.arb_type == ArbitrageType::Triangular
                        &&& o.path@ == cycle_legs(base_asset, found[i].0, found[i].1, p, p, p)
                        &&& o.expected_profit == a.3 - 1000 * 10_000_000
                        &&& o.expected_profit_pct == cycle_profit_pct(p, p, p)
                        &&& o.required_capital == 1000 * 10_000_000
                        &&& o.execution_deadline == now + 30
                        &&& o.status == OpportunityStatus::Detected
                    }
                }),
            decreases cands.len() - c,
        {
            let (intermediate, quote_asset) = candidates[c];
            let (venue1, price1) = get_best_price(AssetPair { base: base_asset, quote: intermediate });
            let (venue2, price2) = get_best_price(AssetPair { base: intermediate, quote: quote_asset });
            let (venue3, price3) = get_best_price(AssetPair { base: quote_asset, quote: base_asset });
            proof {
                assert(cycle_fits(10_000, 10_000, 10_000));
            }
            match evaluate_cycle(base_asset, intermediate, quote_asset, venue1, price1, venue2, price2, venue3, price3) {
                Some((path, profit, profit_pct)) => {
                    let opportunity_id = self.next_opportunity_id;
                    self.next_opportunity_id = self.next_opportunity_id + 1;
                    opportunities.push(ArbitrageOpportunity {
                        opportunity_id,
                        arb_type: ArbitrageType::Triangular,
                        path,
                        expected_profit: profit,
                        expected_profit_pct: profit_pct,
                        required_capital: 1000 * PRECISION,
                        execution_deadline: now + 30,
                        status: OpportunityStatus::Detected,
                    });
                },
                None => {},
            }
            c = c + 1;
        }
        Ok(opportunities)
    }
}

/// Opportunity ids and each user's arbitrage record.
pub struct ArbBook {
    pub next_opportunity_id: u64,
    pub stats: OrdMap<ArbitrageStats>,
}


// ---------------------------------------------------------------------------
// Two-venue opportunities, execution and the track record
// ---------------------------------------------------------------------------

/// Legs of buying at one venue and selling at the other with `capital`.
pub open spec fn simple_legs(buy_venue: LiquidityVenue, sell_venue: LiquidityVenue, pair: AssetPair, buy_price: int, sell_price: int, capital: int) -> Seq<ArbLeg> {
    let out1 = tdiv(capital * 10_000, buy_price);
    seq![
        ArbLeg { venue: buy_venue, asset_in: pair.quote, asset_out: pair.base, amount_in: capital as i128, expected_amount_out: out1 as i128, fee_bps: venue_fee_spec(buy_venue) },
        ArbLeg { venue: sell_venue, asset_in: pair.base, asset_out: pair.quote, amount_in: out1 as i128, expected_amount_out: tdiv(out1 * sell_price, 10_000) as i128, fee_bps: venue_fee_spec(sell_venue) },
    ]
}

pub open spec fn simple_fits(buy_price: int, sell_price: int) -> bool {
    &&& capital_fits(buy_price, sell_price)
    &&& optimal_capital_spec(buy_price, sell_price) matches Ok(c) ==> {
        &&& in_i128(c * 10_000)
        &&& in_i128(tdiv(c * 10_000, buy_price) * sell_price)
        &&& in_i128(tdiv(tdiv(c * 10_000, buy_price) * sell_price, 10_000) - c)
    }
}

impl ArbBook {
    pub fn new() -> (b: Self)
        ensures
            b.next_opportunity_id == 1,
            b.stats@ == Map::<u128, ArbitrageStats>::empty(),
    {
        ArbBook { next_opportunity_id: 1, stats: OrdMap::new() }
    }

    /// A buy-here, sell-there opportunity sized by the best net profit.
    pub fn create_simple_arbitrage(&mut self, buy_venue: LiquidityVenue, sell_venue: LiquidityVenue, pair: AssetPair,
        buy_price: i128, sell_price: i128, profit_pct: u32, now: u64) -> (r: Result<ArbitrageOpportunity, AutoTradeError>)
        requires
            simple_fits(buy_price as int, sell_price as int),
            old(self).next_opportunity_id < u64::MAX,
            now + 30 <= u64::MAX,
        ensures
            final(self).stats@ == old(self).stats@,
            match optimal_capital_spec(buy_price as int, sell_price as int) {
                Err(e) => r == Err::<ArbitrageOpportunity, AutoTradeError>(e) && final(self).next_opportunity_id == old(self).next_opportunity_id,
                Ok(c) => {
                    let legs = simple_legs(buy_venue, sell_venue, pair, buy_price as int, sell_price as int, c as int);
                    &&& r matches Ok(o)
                    &&& final(self).next_opportunity_id == old(self).next_opportunity_id + 1
                    &&& r->Ok_0.opportunity_id == old(self).next_opportunity_id
                    &&& r->Ok_0.arb_type == ArbitrageType::Simple
                    &&& r->Ok_0.path@ == legs
                    &&& r->Ok_0.expected_profit == legs[1].expected_amount_out - c
                    &&& r->Ok_0.expected_profit_pct == profit_pct
                    &&& r->Ok_0.required_capital == c
                    &&& r->Ok_0.execution_deadline == now + 30
                    &&& r->Ok_0.status == OpportunityStatus::Detected
                },
            },
    {
        let capital = calculate_optimal_arb_capital(buy_price, sell_price, &buy_venue, &sell_venue)?;
        if buy_price == 0 {
            return Err(AutoTradeError::InvalidPriceData);
        }
        let out1 = div_toward_zero(capital * 10000, buy_price);
        let leg1 = ArbLeg {
            venue: buy_venue,
            asset_in: pair.quote,
            asset_out: pair.base,
            amount_in: capital,
            expected_amount_out: out1,
            fee_bps: get_venue_fee_bps(&buy_venue),
        };
        let leg2 = ArbLeg {
            venue: sell_venue,
            asset_in: pair.base,
            asset_out: pair.quote,
            amount_in: out1,
            expected_amount_out: div_toward_zero(out1 * sell_price, 10000),
            fee_bps: get_venue_fee_bps(&sell_venue),
        };
        let expected_profit = leg2.expected_amount_out - capital;
        let mut path: Vec<ArbLeg> = Vec::new();
        path.push(leg1);
        path.push(leg2);
        proof { assert(path@ =~= simple_legs(buy_venue, sell_venue, pair, buy_price as int, sell_price as int, capital as int)); }
        let opportunity_id = self.next_opportunity_id;
        self.next_opportunity_id = self.next_opportunity_id + 1;
        Ok(ArbitrageOpportunity {
            opportunity_id,
            arb_type: ArbitrageType::Simple,
            path,
            expected_profit,
            expected_profit_pct: profit_pct,
            required_capital: capital,
            execution_deadline: now + 30,
            status: OpportunityStatus::Detected,
        })
    }

    /// Gaps between the order book and each pool wider than the 0.4% round
    /// trip in fees, followed by profitable cycles from the pair's base.
    pub fn monitor_arbitrage_opportunities(&mut self, asset_pair: AssetPair, now: u64) -> (r: Result<Vec<ArbitrageOpportunity>, AutoTradeError>)
        requires
            old(self).next_opportunity_id + 10 <= u64::MAX,
            now + 30 <= u64::MAX,
        ensures
            final(self).stats@ == old(self).stats@,
            ({
                let found = profitable_cycles(asset_pair.base, cycle_candidates(asset_pair.base), cycle_candidates(asset_pair.base).len() as int);
                let c = optimal_capital_spec(10_000, 10_050)->Ok_0;
                let legs = simple_legs(LiquidityVenue::SDEX, LiquidityVenue::LiquidityPool(1), asset_pair, 10_000, 10_050, c as int);
                &&& r matches Ok(v) && v@.len() == 1 + found.len()
                &&& final(self).next_opportunity_id == old(self).next_opportunity_id + 1 + found.len()
                &&& r->Ok_0@[0].opportunity_id == old(self).next_opportunity_id
                &&& r->Ok_0@[0].arb_type == ArbitrageType::Simple
                &&& r->Ok_0@[0].path@ == legs
                &&& r->Ok_0@[0].expected_profit_pct == 10
                &&& r->Ok_0@[0].required_capital == c
                &&& forall|i: int| 1 <= i < 1 + found.len() ==>
                    (#[trigger] r->Ok_0@[i]).opportunity_id == old(self).next_opportunity_id + i
                    && r->Ok_0@[i].arb_type == ArbitrageType::Triangular
                    && r->Ok_0@[i].path@ == cycle_legs(asset_pair.base, found[i - 1].0, found[i - 1].1, best_price_spec(), best_price_spec(), best_price_spec())
            }),
    {
        let mut opportunities: Vec<ArbitrageOpportunity> = Vec::new();
        let sdex_price: i128 = 10000;
        let pool_id: u32 = 1;
        let pool_price: i128 = 10050;
        let price_diff = if pool_price > sdex_price { pool_price - sdex_price } else { sdex_price - pool_price };
        let diff_pct = (price_diff * 10000) / sdex_price;
        let total_fee_bps: i128 = 40;
        if diff_pct > total_fee_bps {
            let profit_pct = (diff_pct - total_fee_bps) as u32;
            proof {
                lemma_capital_bounds(10_000, 10_050, venue_liquidity_spec(), 1000, 0, 0);
            }
            let opportunity = self.create_simple_arbitrage(LiquidityVenue::SDEX, LiquidityVenue::LiquidityPool(pool_id),
                asset_pair, sdex_price, pool_price, profit_pct, now)?;
            opportunities.push(opportunity);
        }
        let mut triangular = self.find_triangular_arbitrage(asset_pair.base, now)?;
        opportunities.append(&mut triangular);
        Ok(opportunities)
    }
}


/// The user's balance of an asset, and what a venue trade returns. These
/// are fixed readings until balances and venue fills are connected.
pub open spec fn balance_spec() -> int { 100_000_000_000 }
pub open spec fn trade_out_spec() -> int { 10_500 }

/// Run every leg in order, each with the previous leg's output; fail unless
/// the cycle ends above the capital it started with. Returns the trade ids.
pub fn execute_arbitrage_atomic(user: AccountId, opportunity: &ArbitrageOpportunity, now: u64) -> (r: Result<Vec<u64>, AutoTradeError>)
    ensures
        now > opportunity.execution_deadline ==> r == Err::<Vec<u64>, AutoTradeError>(AutoTradeError::ArbitrageError),
        now <= opportunity.execution_deadline && opportunity.path@.len() == 0
            ==> r == Err::<Vec<u64>, AutoTradeError>(AutoTradeError::InvalidPairsConfig),
        now <= opportunity.execution_deadline && opportunity.path@.len() > 0 && balance_spec() < opportunity.required_capital
            ==> r == Err::<Vec<u64>, AutoTradeError>(AutoTradeError::InsufficientBalance),
        now <= opportunity.execution_deadline && opportunity.path@.len() > 0 && balance_spec() >= opportunity.required_capital
            ==> if trade_out_spec() <= opportunity.required_capital {
                r == Err::<Vec<u64>, AutoTradeError>(AutoTradeError::ArbitrageError)
            } else {
                r matches Ok(ids) && ids@ == Seq::new(opportunity.path@.len(), |i: int| 1u64)
            },
{
    if now > opportunity.execution_deadline {
        return Err(AutoTradeError::ArbitrageError);
    }
    if opportunity.path.len() == 0 {
        return Err(AutoTradeError::InvalidPairsConfig);
    }
    let user_balance: i128 = 100_000_000_000;
    if user_balance < opportunity.required_capital {
        return Err(AutoTradeError::InsufficientBalance);
    }
    let mut trade_ids: Vec<u64> = Vec::new();
    let mut current_amount = opportunity.required_capital;
    let mut i: usize = 0;
    while i < opportunity.path.len()
        invariant
            i <= opportunity.path@.len(),
            opportunity.path@.len() > 0,
            trade_ids@ == Seq::new(i as nat, |k: int| 1u64),
            i > 0 ==> current_amount == trade_out_spec(),
            i == 0 ==> current_amount == opportunity.required_capital,
        decreases opportunity.path@.len() - i,
    {
        let _leg = opportunity.path[i];
        let trade_id: u64 = 1;
        trade_ids.push(trade_id);
        current_amount = 10_500;
        i = i + 1;
        proof { assert(trade_ids@ =~= Seq::new(i as nat, |k: int| 1u64)); }
    }
    let _ = user;
    if current_amount <= opportunity.required_capital {
        return Err(AutoTradeError::ArbitrageError);
    }
    Ok(trade_ids)
}

/// Refuse oversized trades, deadlines more than a minute out, and paths
/// with pending transactions on their assets.
pub fn protect_against_mev(opportunity: &ArbitrageOpportunity, now: u64) -> (r: Result<(), AutoTradeError>)
    requires
        opportunity.required_capital <= MAX_SINGLE_ARB ==> opportunity.execution_deadline >= now,
    ensures
        r == (if opportunity.required_capital > MAX_SINGLE_ARB {
            Err(AutoTradeError::ArbitrageError)
        } else if opportunity.execution_deadline - now > 60 {
            Err(AutoTradeError::FrontRunningRisk)
        } else {
            Ok(())
        }),
{
    if opportunity.required_capital > MAX_SINGLE_ARB {
        return Err(AutoTradeError::ArbitrageError);
    }
    if opportunity.execution_deadline - now > 60 {
        return Err(AutoTradeError::FrontRunningRisk);
    }
    let pending_txs: Vec<u64> = Vec::new();
    if pending_txs.len() != 0 {
        return Err(AutoTradeError::FrontRunningRisk);
    }
    Ok(())
}

pub open spec fn zero_stats() -> ArbitrageStats {
    ArbitrageStats { total_opportunities_detected: 0, total_executed: 0, total_failed: 0, total_profit: 0, avg_profit_pct: 0, success_rate: 0 }
}

/// The record after one more executed opportunity.
pub open spec fn stats_after(st: ArbitrageStats, required_capital: int, actual_profit: int) -> ArbitrageStats {
    let executed = (st.total_executed + 1) as u64;
    let rate = (executed * 10_000 / (executed + st.total_failed)) as u32;
    let pct = (tdiv(actual_profit * 10_000, required_capital)) as u32;
    ArbitrageStats {
        total_executed: executed,
        total_profit: (st.total_profit + actual_profit) as i128,
        success_rate: rate,
        avg_profit_pct: if required_capital > 0 {
            ((st.avg_profit_pct * ((executed - 1) as u32) + pct) / ((executed as u32) as int)) as u32
        } else {
            st.avg_profit_pct
        },
        ..st
    }
}

pub open spec fn stats_fit(st: ArbitrageStats, required_capital: int, actual_profit: int) -> bool {
    let executed = st.total_executed + 1;
    &&& st.total_executed < u64::MAX
    &&& in_i128(st.total_profit + actual_profit)
    &&& executed + st.total_failed <= u64::MAX
    &&& executed * 10_000 <= u64::MAX
    &&& required_capital > 0 ==> {
        &&& in_i128(actual_profit * 10_000)
        &&& (executed as u32) != 0
        &&& st.avg_profit_pct * ((executed - 1) as u32) + ((tdiv(actual_profit * 10_000, required_capital)) as u32) <= u32::MAX
    }
}

impl ArbBook {
    pub open spec fn stats_of(&self, user: AccountId) -> ArbitrageStats {
        if self.stats@.contains_key(user as u128) { self.stats@[user as u128] } else { zero_stats() }
    }

    /// Count an executed opportunity in the user's record.
    pub fn update_arbitrage_stats(&mut self, user: AccountId, opportunity: &ArbitrageOpportunity, actual_profit: i128) -> (r: Result<(), AutoTradeError>)
        requires
            stats_fit(old(self).stats_of(user), opportunity.required_capital as int, actual_profit as int),
        ensures
            r is Ok,
            final(self).next_opportunity_id == old(self).next_opportunity_id,
            final(self).stats@ == old(self).stats@.insert(user as u128,
                stats_after(old(self).stats_of(user), opportunity.required_capital as int, actual_profit as int)),
    {
        let mut stats = match self.stats.get(user as u128) {
            Some(s) => *s,
            None => ArbitrageStats { total_opportunities_detected: 0, total_executed: 0, total_failed: 0, total_profit: 0, avg_profit_pct: 0, success_rate: 0 },
        };
        stats.total_executed = stats.total_executed + 1;
        stats.total_profit = stats.total_profit + actual_profit;
        let total_attempts = stats.total_executed + stats.total_failed;
        stats.success_rate = ((stats.total_executed * 10000) / total_attempts) as u32;
        if opportunity.required_capital > 0 {
            let profit_pct = div_toward_zero(actual_profit * 10000, opportunity.required_capital) as u32;
            stats.avg_profit_pct = ((stats.avg_profit_pct * (stats.total_executed - 1) as u32) + profit_pct) / stats.total_executed as u32;
        }
        self.stats.insert(user as u128, stats);
        Ok(())
    }
}

}
