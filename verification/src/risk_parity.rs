//! Risk parity: weight each asset by inverse volatility so that every asset
//! contributes alike to portfolio risk, and trade toward those weights.
use vstd::prelude::*;
use crate::errors::AutoTradeError;
use crate::math::{abs, div_toward_zero, in_i128, tdiv};
use crate::risk::{Position, RiskBook};
use crate::AccountId;

verus! {

/// Scale of the inverse volatilities.
pub const INVERSE_SCALE: i128 = 1_000_000_000_000;

#[derive(Clone, Copy, Debug, PartialEq, Eq, Structural)]
pub struct AssetRisk {
    pub asset_id: u32,
    pub volatility_bps: i128,
    pub current_value_xlm: i128,
    pub current_risk_contribution: i128,
}

#[derive(Clone, Copy, Debug, PartialEq, Eq, Structural)]
pub struct RebalanceTrade {
    pub asset_id: u32,
    pub trade_amount_xlm: i128,
    pub is_buy: bool,
}

/// One asset of a portfolio and its current value.
#[derive(Clone, Copy, Debug, PartialEq, Eq, Structural)]
pub struct PortfolioAsset {
    pub asset_id: u32,
    pub current_value_xlm: i128,
}

/// A user's risk-parity settings.
#[derive(Clone, Copy, Debug, PartialEq, Eq, Structural)]
pub struct RiskParityConfig {
    pub enabled: bool,
    /// Smallest drift (percent of an asset's value) worth a trade.
    pub threshold_pct: u32,
    pub rebalance_frequency_days: u32,
    pub last_rebalance: u64,
}

pub open spec fn asset_risk_of(a: PortfolioAsset, vol: i128) -> AssetRisk {
    AssetRisk {
        asset_id: a.asset_id,
        volatility_bps: vol,
        current_value_xlm: a.current_value_xlm,
        current_risk_contribution: (a.current_value_xlm * vol) as i128,
    }
}

pub open spec fn rc_sum(assets: Seq<PortfolioAsset>, vols: Seq<i128>, k: int) -> int
    decreases k,
{
    if k <= 0 { 0 } else { rc_sum(assets, vols, k - 1) + assets[k - 1].current_value_xlm * vols[k - 1] }
}

/// Inverse volatility; assets without a positive volatility take the default.
pub open spec fn inv_vol(vol: i128, default_vol: i128) -> int {
    if vol > 0 { 1_000_000_000_000int / (vol as int) } else { tdiv(1_000_000_000_000, default_vol as int) }
}

pub open spec fn inv_sum(vols: Seq<i128>, default_vol: i128, k: int) -> int
    decreases k,
{
    if k <= 0 { 0 } else { inv_sum(vols, default_vol, k - 1) + inv_vol(vols[k - 1], default_vol) }
}

/// The trade moving asset `i` to its inverse-volatility share of
/// `total_value`, if the drift exceeds the threshold.
pub open spec fn trade_for(a: PortfolioAsset, inv: int, total_inv: int, total_value: int, threshold_pct: int) -> Option<RebalanceTrade> {
    let target = tdiv(total_value * inv, total_inv);
    let diff = target - a.current_value_xlm;
    let exceeds = if a.current_value_xlm > 0 {
        tdiv(abs(diff) * 10_000, a.current_value_xlm as int) > threshold_pct * 100
    } else {
        abs(diff) > 0
    };
    if exceeds { Some(RebalanceTrade { asset_id: a.asset_id, trade_amount_xlm: abs(diff) as i128, is_buy: diff > 0 }) } else { None }
}

pub open spec fn trades_upto(assets: Seq<PortfolioAsset>, vols: Seq<i128>, default_vol: i128, total_value: int, threshold_pct: int, k: int) -> Seq<RebalanceTrade>
    decreases k,
{
    if k <= 0 {
        Seq::empty()
    } else {
        let prev = trades_upto(assets, vols, default_vol, total_value, threshold_pct, k - 1);
        match trade_for(assets[k - 1], inv_vol(vols[k - 1], default_vol), inv_sum(vols, default_vol, vols.len() as int), total_value, threshold_pct) {
            Some(t) => prev.push(t),
            None => prev,
        }
    }
}

pub open spec fn parity_fits(assets: Seq<PortfolioAsset>, vols: Seq<i128>, default_vol: i128, total_value: int) -> bool {
    let n = assets.len() as int;
    let total_inv = inv_sum(vols, default_vol, n);
    &&& vols.len() == assets.len()
    &&& default_vol != 0
    &&& forall|k: int| #![trigger rc_sum(assets, vols, k)] #![trigger inv_sum(vols, default_vol, k)] 0 < k <= n ==> {
        &&& in_i128(assets[k - 1].current_value_xlm * vols[k - 1])
        &&& in_i128(rc_sum(assets, vols, k))
        &&& in_i128(inv_sum(vols, default_vol, k))
    }
    &&& rc_sum(assets, vols, n) != 0 ==> {
        &&& total_inv != 0
        &&& forall|k: int| 0 <= k < n ==> {
            let inv = inv_vol(vols[k], default_vol);
            let diff = tdiv(total_value * inv, total_inv) - (#[trigger] assets[k]).current_value_xlm;
            &&& in_i128(total_value * inv)
            &&& total_value * inv > i128::MIN
            &&& in_i128(diff)
            &&& diff > i128::MIN
            &&& in_i128(abs(diff) * 10_000)
        }
    }
}

/// Each asset's risk contribution (value times volatility) and the trades
/// toward inverse-volatility weights of `total_value_xlm`. `volatilities`
/// gives each asset's volatility in basis points; `default_volatility_bps`
/// stands in where one is not positive.
pub fn calculate_risk_parity_rebalance(
    assets: &Vec<PortfolioAsset>,
    total_value_xlm: i128,
    volatilities: &Vec<i128>,
    threshold_pct: u32,
    default_volatility_bps: i128,
) -> (r: Result<(Vec<AssetRisk>, Vec<RebalanceTrade>), AutoTradeError>)
    requires
        parity_fits(assets@, volatilities@, default_volatility_bps, total_value_xlm as int),
    ensures
        assets@.len() == 0 ==> r == Err::<(Vec<AssetRisk>, Vec<RebalanceTrade>), AutoTradeError>(AutoTradeError::InvalidAmount),
        assets@.len() > 0 ==> (r matches Ok(out) && {
            &&& out.0@ == Seq::new(assets@.len(), |i: int| asset_risk_of(assets@[i], volatilities@[i]))
            &&& out.1@ == if rc_sum(assets@, volatilities@, assets@.len() as int) == 0 {
                    Seq::empty()
                } else {
                    trades_upto(assets@, volatilities@, default_volatility_bps, total_value_xlm as int, threshold_pct as int, assets@.len() as int)
                }
        }),
{
    if assets.len() == 0 {
        return Err(AutoTradeError::InvalidAmount);
    }
    let ghost a = assets@;
    let ghost v = volatilities@;
    let n = assets.len();
    let mut asset_risks: Vec<AssetRisk> = Vec::new();
    let mut total_risk_contribution: i128 = 0;
    let mut i: usize = 0;
    while i < n
        invariant
            a == assets@,
            v == volatilities@,
            n == a.len(),
            parity_fits(a, v, default_volatility_bps, total_value_xlm as int),
            i <= n,
            asset_risks@ == Seq::new(i as nat, |j: int| asset_risk_of(a[j], v[j])),
            total_risk_contribution == rc_sum(a, v, i as int),
        decreases n - i,
    {
        let asset = assets[i];
        let vol = volatilities[i];
        assert(in_i128(rc_sum(a, v, i + 1)));
        assert(in_i128(a[(i + 1) - 1].current_value_xlm * v[(i + 1) - 1]));
        let risk_contrib = asset.current_value_xlm * vol;
        asset_risks.push(AssetRisk {
            asset_id: asset.asset_id,
            volatility_bps: vol,
            current_value_xlm: asset.current_value_xlm,
            current_risk_contribution: risk_contrib,
        });
        total_risk_contribution = total_risk_contribution + risk_contrib;
        i = i + 1;
        proof { assert(asset_risks@ =~= Seq::new(i as nat, |j: int| asset_risk_of(a[j], v[j]))); }
    }
    if total_risk_contribution == 0 {
        return Ok((asset_risks, Vec::new()));
    }
    let mut inv_vol_sum: i128 = 0;
    let mut inv_vols: Vec<i128> = Vec::new();
    let mut j: usize = 0;
    while j < n
        invariant
            a == assets@,
            v == volatilities@,
            n == a.len(),
            parity_fits(a, v, default_volatility_bps, total_value_xlm as int),
            j <= n,
            inv_vols@ == Seq::new(j as nat, |q: int| inv_vol(v[q], default_volatility_bps) as i128),
            inv_vol_sum == inv_sum(v, default_volatility_bps, j as int),
        decreases n - j,
    {
        let vol = volatilities[j];
        let inv = if vol > 0 {
            INVERSE_SCALE / vol
        } else {
            div_toward_zero(INVERSE_SCALE, default_volatility_bps)
        };
        assert(in_i128(inv_sum(v, default_volatility_bps, j + 1)));
        inv_vols.push(inv);
        inv_vol_sum = inv_vol_sum + inv;
        j = j + 1;
        proof { assert(inv_vols@ =~= Seq::new(j as nat, |q: int| inv_vol(v[q], default_volatility_bps) as i128)); }
    }
    let mut trades: Vec<RebalanceTrade> = Vec::new();
    let threshold_bps = (threshold_pct as i128) * 100;
    let mut k: usize = 0;
    while k < n
        invariant
            a == assets@,
            v == volatilities@,
            n == a.len(),
            parity_fits(a, v, default_volatility_bps, total_value_xlm as int),
            rc_sum(a, v, n as int) != 0,
            inv_vols@ == Seq::new(n as nat, |q: int| inv_vol(v[q], default_volatility_bps) as i128),
            inv_vol_sum == inv_sum(v, default_volatility_bps, n as int),
            threshold_bps == threshold_pct * 100,
            k <= n,
            trades@ == trades_upto(a, v, default_volatility_bps, total_value_xlm as int, threshold_pct as int, k as int),
        decreases n - k,
    {
        let ar = assets[k];
        let inv = inv_vols[k];
        assert(in_i128(total_value_xlm * inv_vol(v[k as int], default_volatility_bps)));
        let target_value = div_toward_zero(total_value_xlm * inv, inv_vol_sum);
        let diff = target_value - ar.current_value_xlm;
        let abs_diff = if diff < 0 { -diff } else { diff };
        let exceeds_threshold = if ar.current_value_xlm > 0 {
            (abs_diff * 10000 / ar.current_value_xlm) > threshold_bps
        } else {
            abs_diff > 0
        };
        if exceeds_threshold {
            trades.push(RebalanceTrade {
                asset_id: ar.asset_id,
                trade_amount_xlm: abs_diff,
                is_buy: diff > 0,
            });
        }
        k = k + 1;
    }
    Ok((asset_risks, trades))
}


/// A position after one trade on its asset: the traded value converted to
/// units at the latest (else entry) price; a position at or below zero is
/// closed. Trades on other assets, or without a positive price, leave it.
pub open spec fn position_step(p: Option<Position>, asset: u32, t: RebalanceTrade, prices: Map<u128, i128>) -> Option<Position> {
    match p {
        None => None,
        Some(pos) => {
            let price = if prices.contains_key(asset as u128) { prices[asset as u128] as int } else { pos.entry_price as int };
            if t.asset_id != asset || price <= 0 {
                Some(pos)
            } else {
                let change = tdiv(t.trade_amount_xlm as int, price);
                let amount = if t.is_buy { pos.amount + change } else { pos.amount - change };
                if amount <= 0 { None } else { Some(Position { amount: amount as i128, ..pos }) }
            }
        },
    }
}

pub open spec fn position_after(trades: Seq<RebalanceTrade>, asset: u32, p: Option<Position>, prices: Map<u128, i128>, k: int) -> Option<Position>
    decreases k,
{
    if k <= 0 { p } else { position_step(position_after(trades, asset, p, prices, k - 1), asset, trades[k - 1], prices) }
}

pub open spec fn trades_apply_fit(risk: &RiskBook, user: AccountId, trades: Seq<RebalanceTrade>) -> bool {
    forall|k: int| 0 <= k < trades.len() ==> {
        let a = (#[trigger] trades[k]).asset_id;
        position_after(trades, a, risk.position_spec(user, a), risk.prices_spec(), k) matches Some(pos) ==> {
            let price = if risk.prices_spec().contains_key(a as u128) { risk.prices_spec()[a as u128] as int } else { pos.entry_price as int };
            price > 0 ==> in_i128(pos.amount + tdiv(trades[k].trade_amount_xlm as int, price))
                && in_i128(pos.amount - tdiv(trades[k].trade_amount_xlm as int, price))
        }
    }
}

/// Apply rebalance trades to the user's positions in order.
pub fn apply_rebalance_trades(risk: &mut RiskBook, user: AccountId, trades: &Vec<RebalanceTrade>)
    requires
        old(risk).wf(),
        trades_apply_fit(&*old(risk), user, trades@),
    ensures
        final(risk).wf(),
        forall|a: u32| #[trigger] final(risk).position_spec(user, a)
            == position_after(trades@, a, old(risk).position_spec(user, a), old(risk).prices_spec(), trades@.len() as int),
        forall|u: AccountId, a: u32| u != user ==> #[trigger] final(risk).position_spec(u, a) == old(risk).position_spec(u, a),
        final(risk).prices_spec() == old(risk).prices_spec(),
        forall|a: u32| #[trigger] final(risk).history_count(a) == old(risk).history_count(a),
        forall|a: u32| #[trigger] final(risk).history_slots(a) == old(risk).history_slots(a),
{
    let ghost prices = risk.prices_spec();
    let mut i: usize = 0;
    while i < trades.len()
        invariant
            risk.wf(),
            prices == risk.prices_spec(),
            prices == old(risk).prices_spec(),
            trades_apply_fit(&*old(risk), user, trades@),
            i <= trades@.len(),
            forall|a: u32| #[trigger] risk.position_spec(user, a)
                == position_after(trades@, a, old(risk).position_spec(user, a), prices, i as int),
            forall|u: AccountId, a: u32| u != user ==> #[trigger] risk.position_spec(u, a) == old(risk).position_spec(u, a),
            forall|a: u32| #[trigger] risk.history_count(a) == old(risk).history_count(a),
            forall|a: u32| #[trigger] risk.history_slots(a) == old(risk).history_slots(a),
        decreases trades@.len() - i,
    {
        let trade = trades[i];
        let ghost before = *risk;
        match risk.get_position(user, trade.asset_id) {
            Some(pos) => {
                let price = match risk.get_asset_price(trade.asset_id) {
                    Some(p) => p,
                    None => pos.entry_price,
                };
                if price > 0 {
                    assert(trades@[i as int] == trade);
                    let amount_change = div_toward_zero(trade.trade_amount_xlm, price);
                    let mut updated = pos;
                    if trade.is_buy {
                        updated.amount = pos.amount + amount_change;
                    } else {
                        updated.amount = pos.amount - amount_change;
                    }
                    if updated.amount <= 0 {
                        risk.remove_position(user, trade.asset_id);
                    } else {
                        risk.set_position(user, trade.asset_id, updated);
                    }
                }
            },
            None => {},
        }
        proof {
            assert forall|a: u32| #[trigger] risk.position_spec(user, a)
                == position_after(trades@, a, old(risk).position_spec(user, a), prices, i + 1) by {
                assert(before.position_spec(user, a) == position_after(trades@, a, old(risk).position_spec(user, a), prices, i as int));
            }
        }
        i = i + 1;
    }
}

/// Rebalance the user's positions toward risk parity when enabled and due,
/// then mark the rebalance time.
pub fn execute_risk_parity_rebalance(
    risk: &mut RiskBook,
    config: &mut RiskParityConfig,
    user: AccountId,
    assets: &Vec<PortfolioAsset>,
    total_value_xlm: i128,
    volatilities: &Vec<i128>,
    default_volatility_bps: i128,
    now: u64,
) -> (r: Result<(), AutoTradeError>)
    requires
        old(risk).wf(),
        old(config).last_rebalance + old(config).rebalance_frequency_days * 86400 <= u64::MAX,
        parity_fits(assets@, volatilities@, default_volatility_bps, total_value_xlm as int),
        trades_apply_fit(&*old(risk), user, trades_upto(assets@, volatilities@, default_volatility_bps, total_value_xlm as int,
            old(config).threshold_pct as int, assets@.len() as int)),
    ensures
        final(risk).wf(),
        ({
            let trades = if rc_sum(assets@, volatilities@, assets@.len() as int) == 0 {
                Seq::<RebalanceTrade>::empty()
            } else {
                trades_upto(assets@, volatilities@, default_volatility_bps, total_value_xlm as int, old(config).threshold_pct as int, assets@.len() as int)
            };
            let unchanged = *final(config) == *old(config) && forall|u: AccountId, a: u32| #[trigger] final(risk).position_spec(u, a) == old(risk).position_spec(u, a);
            if !old(config).enabled {
                r == Err::<(), AutoTradeError>(AutoTradeError::Unauthorized) && unchanged
            } else if now < old(config).last_rebalance + old(config).rebalance_frequency_days * 86400 {
                r is Ok && unchanged
            } else if assets@.len() == 0 {
                r == Err::<(), AutoTradeError>(AutoTradeError::InvalidAmount) && unchanged
            } else if trades.len() == 0 {
                r is Ok && unchanged
            } else {
                &&& r is Ok
                &&& *final(config) == RiskParityConfig { last_rebalance: now, ..*old(config) }
                &&& forall|a: u32| #[trigger] final(risk).position_spec(user, a)
                    == position_after(trades, a, old(risk).position_spec(user, a), old(risk).prices_spec(), trades.len() as int)
                &&& forall|u: AccountId, a: u32| u != user ==> #[trigger] final(risk).position_spec(u, a) == old(risk).position_spec(u, a)
            }
        }),
{
    if !config.enabled {
        return Err(AutoTradeError::Unauthorized);
    }
    let seconds_per_day: u64 = 86400;
    if now < config.last_rebalance + (config.rebalance_frequency_days as u64 * seconds_per_day) {
        return Ok(());
    }
    let (_, trades) = calculate_risk_parity_rebalance(assets, total_value_xlm, volatilities, config.threshold_pct, default_volatility_bps)?;
    if trades.len() == 0 {
        return Ok(());
    }
    proof {
        assert(rc_sum(assets@, volatilities@, assets@.len() as int) != 0);
    }
    apply_rebalance_trades(risk, user, &trades);
    config.last_rebalance = now;
    Ok(())
}

}

verus! {

/// Trade `t` is for one of the first `n` assets, and when that asset has a
/// positive value the trade is more than `threshold_pct` percent of it.
pub open spec fn trade_beyond_threshold(assets: Seq<PortfolioAsset>, n: int, t: RebalanceTrade, threshold_pct: int) -> bool {
    exists|i: int| #![trigger assets[i]] 0 <= i < n && {
        &&& t.asset_id == assets[i].asset_id
        &&& t.trade_amount_xlm >= 0
        &&& (assets[i].current_value_xlm > 0 ==> {
            &&& (t.trade_amount_xlm * 10_000) / (assets[i].current_value_xlm as int) > threshold_pct * 100
            &&& t.trade_amount_xlm * 100 > threshold_pct * assets[i].current_value_xlm
        })
    }
}

proof fn lemma_trades_from_assets(assets: Seq<PortfolioAsset>, vols: Seq<i128>, default_vol: i128, total_value: int,
    threshold_pct: int, k: int)
    requires
        0 <= k <= assets.len(),
        0 <= threshold_pct,
        parity_fits(assets, vols, default_vol, total_value),
        rc_sum(assets, vols, assets.len() as int) != 0,
    ensures
        forall|j: int| 0 <= j < trades_upto(assets, vols, default_vol, total_value, threshold_pct, k).len() ==>
            trade_beyond_threshold(assets, k, #[trigger] trades_upto(assets, vols, default_vol, total_value, threshold_pct, k)[j], threshold_pct),
    decreases k,
{
    if k > 0 {
        lemma_trades_from_assets(assets, vols, default_vol, total_value, threshold_pct, k - 1);
        let prev = trades_upto(assets, vols, default_vol, total_value, threshold_pct, k - 1);
        let cur = trades_upto(assets, vols, default_vol, total_value, threshold_pct, k);
        let a = assets[k - 1];
        let inv = inv_vol(vols[k - 1], default_vol);
        let total_inv = inv_sum(vols, default_vol, vols.len() as int);
        let diff = tdiv(total_value * inv, total_inv) - a.current_value_xlm;
        assert(in_i128(diff) && diff > i128::MIN && in_i128(abs(diff) * 10_000)) by {
            assert(0 <= k - 1 < assets.len());
            let x = assets[k - 1];
        }
        assert forall|j: int| 0 <= j < prev.len() implies #[trigger] trade_beyond_threshold(assets, k, prev[j], threshold_pct) by {
            assert(trade_beyond_threshold(assets, k - 1, prev[j], threshold_pct));
            let i = choose|i: int| #![trigger assets[i]] 0 <= i < k - 1 && {
                let t = prev[j];
                &&& t.asset_id == assets[i].asset_id
                &&& t.trade_amount_xlm >= 0
                &&& (assets[i].current_value_xlm > 0 ==> {
                    &&& (t.trade_amount_xlm * 10_000) / (assets[i].current_value_xlm as int) > threshold_pct * 100
                    &&& t.trade_amount_xlm * 100 > threshold_pct * assets[i].current_value_xlm
                })
            };
            assert(assets[i] == assets[i]);
        }
        match trade_for(a, inv, total_inv, total_value, threshold_pct) {
            Some(t) => {
                assert(cur == prev.push(t));
                assert(t.trade_amount_xlm == abs(diff));
                if a.current_value_xlm > 0 {
                    let v = a.current_value_xlm as int;
                    let x = abs(diff) * 10_000;
                    assert(x / v > threshold_pct * 100);
                    assert(abs(diff) * 100 > threshold_pct * v) by (nonlinear_arith)
                        requires x / v > threshold_pct * 100, x == abs(diff) * 10_000, v > 0, abs(diff) >= 0;
                }
                assert(assets[k - 1] == a);
                assert(trade_beyond_threshold(assets, k, t, threshold_pct));
                assert forall|j: int| 0 <= j < cur.len() implies #[trigger] trade_beyond_threshold(assets, k, cur[j], threshold_pct) by {
                    if j < prev.len() {
                        assert(cur[j] == prev[j]);
                    } else {
                        assert(cur[j] == t);
                    }
                }
            },
            None => {
                assert(cur == prev);
            },
        }
    }
}

/// Rebalancing trades only assets of the portfolio, and trades an asset
/// with a positive value only when its drift from the target is more than
/// `threshold_pct` percent of that value: a drift of at most the threshold
/// never brings a trade.
pub proof fn law_rebalance_respects_threshold(assets: Seq<PortfolioAsset>, vols: Seq<i128>, default_vol: i128, total_value: int,
    threshold_pct: u32)
    requires
        parity_fits(assets, vols, default_vol, total_value),
        rc_sum(assets, vols, assets.len() as int) != 0,
    ensures
        forall|j: int| 0 <= j < trades_upto(assets, vols, default_vol, total_value, threshold_pct as int, assets.len() as int).len() ==>
            trade_beyond_threshold(assets, assets.len() as int,
                #[trigger] trades_upto(assets, vols, default_vol, total_value, threshold_pct as int, assets.len() as int)[j], threshold_pct as int),
{
    lemma_trades_from_assets(assets, vols, default_vol, total_value, threshold_pct as int, assets.len() as int);
}

}
