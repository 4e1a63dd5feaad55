//! Portfolio insurance: drawdown against a high-water mark opens offsetting
//! hedges, which are resized as the portfolio moves and closed once it has
//! recovered.
use vstd::prelude::*;
use crate::errors::AutoTradeError;
use crate::math::{abs, div_toward_zero, in_i128, tdiv};
use crate::risk::{holdings_value, holdings_value_fits, Holding, RiskBook};
use crate::store::OrdMap;
use crate::AccountId;

verus! {

/// The persistent slot of a user's insurance settings.
#[derive(Clone, Copy, Debug, PartialEq, Eq, Structural)]
pub enum InsuranceKey {
    Insurance(AccountId),
}

/// Which exposure a hedge protects.
#[derive(Clone, Copy, Debug, PartialEq, Eq, Structural)]
pub enum HedgePurpose {
    PortfolioProtection,
    AssetSpecificHedge(u32),
}

#[derive(Clone, Copy, Debug, PartialEq, Eq, Structural)]
pub struct HedgePosition {
    pub asset: u32,
    pub amount: i128,
    pub entry_price: i128,
    pub purpose: HedgePurpose,
}

/// A user's insurance settings and open hedges.
pub struct PortfolioInsurance {
    pub user: AccountId,
    pub enabled: bool,
    /// Drawdown (basis points) at which hedging starts.
    pub max_drawdown_bps: u32,
    /// Share of the portfolio to hedge, in basis points.
    pub hedge_ratio_bps: u32,
    /// Smallest hedge mismatch (basis points) worth a rebalance.
    pub rebalance_threshold_bps: u32,
    pub active_hedges: Vec<HedgePosition>,
    pub portfolio_high_water_mark: i128,
}

/// Insurance settings by user.
pub struct InsuranceBook {
    pub insurance: OrdMap<PortfolioInsurance>,
}

/// The user's portfolio value as the risk book computes it.
pub open spec fn portfolio_value(risk: &RiskBook, user: AccountId) -> int {
    holdings_value(risk.holdings_spec(user), risk.prices_spec())
}

/// Latest price of `asset`, else `fallback`.
pub open spec fn price_or(prices: Map<u128, i128>, asset: u32, fallback: i128) -> i128 {
    if prices.contains_key(asset as u128) { prices[asset as u128] } else { fallback }
}

/// Value of a hedge: amount times its latest (else entry) price, over 100.
pub open spec fn hedge_value(h: HedgePosition, prices: Map<u128, i128>) -> int {
    tdiv(h.amount * price_or(prices, h.asset, h.entry_price), 100)
}

pub open spec fn hedges_value(hs: Seq<HedgePosition>, prices: Map<u128, i128>, k: int) -> int
    decreases k,
{
    if k <= 0 { 0 } else { hedges_value(hs, prices, k - 1) + hedge_value(hs[k - 1], prices) }
}

pub open spec fn hedges_value_fit(hs: Seq<HedgePosition>, prices: Map<u128, i128>) -> bool {
    forall|k: int| 0 < k <= hs.len() ==> {
        &&& in_i128(hs[k - 1].amount * price_or(prices, hs[k - 1].asset, hs[k - 1].entry_price))
        &&& in_i128(#[trigger] hedges_value(hs, prices, k))
    }
}

// ---------------------------------------------------------------------------
// Sizing new hedges
// ---------------------------------------------------------------------------

/// The hedge opened on one holding for `per_asset_value`, if any: holdings
/// without a positive price, or too small for a unit, get none.
pub open spec fn hedge_for(h: Holding, prices: Map<u128, i128>, per_asset_value: int) -> Option<HedgePosition> {
    let price = price_or(prices, h.asset, 1);
    if price <= 0 {
        None
    } else {
        let amount = tdiv(per_asset_value * 100, price as int);
        if amount <= 0 {
            None
        } else {
            Some(HedgePosition { asset: h.asset, amount: amount as i128, entry_price: price, purpose: HedgePurpose::AssetSpecificHedge(h.asset) })
        }
    }
}

pub open spec fn hedges_prefix(hs: Seq<Holding>, prices: Map<u128, i128>, per_asset_value: int, k: int) -> Seq<HedgePosition>
    decreases k,
{
    if k <= 0 {
        Seq::empty()
    } else {
        let p = hedges_prefix(hs, prices, per_asset_value, k - 1);
        match hedge_for(hs[k - 1], prices, per_asset_value) {
            Some(h) => p.push(h),
            None => p,
        }
    }
}

/// Hedges worth `total * ratio_bps / 10000`, split equally over the user's
/// holdings in asset order.
pub open spec fn optimal_hedges(hs: Seq<Holding>, prices: Map<u128, i128>, total: int, ratio_bps: int) -> Seq<HedgePosition> {
    if total <= 0 || hs.len() == 0 {
        Seq::empty()
    } else {
        let per = tdiv(tdiv(total * ratio_bps, 10_000), hs.len() as int);
        hedges_prefix(hs, prices, per, hs.len() as int)
    }
}

pub open spec fn optimal_hedges_fit(hs: Seq<Holding>, total: int, ratio_bps: int) -> bool {
    total > 0 && hs.len() > 0 ==> {
        let per = tdiv(tdiv(total * ratio_bps, 10_000), hs.len() as int);
        &&& in_i128(total * ratio_bps)
        &&& in_i128(per * 100)
    }
}

fn calculate_optimal_hedges(risk: &RiskBook, user: AccountId, total_hedge_value: i128, ratio_bps: u32) -> (r: Vec<HedgePosition>)
    requires
        optimal_hedges_fit(risk.holdings_spec(user), total_hedge_value as int, ratio_bps as int),
    ensures
        r@ == optimal_hedges(risk.holdings_spec(user), risk.prices_spec(), total_hedge_value as int, ratio_bps as int),
{
    let holdings = risk.holdings(user);
    let mut hedges: Vec<HedgePosition> = Vec::new();
    if total_hedge_value <= 0 {
        return hedges;
    }
    let n = holdings.len();
    if n == 0 {
        return hedges;
    }
    let hedge_value = div_toward_zero(total_hedge_value * ratio_bps as i128, 10_000);
    let per_asset_value = div_toward_zero(hedge_value, n as i128);
    let ghost hs = holdings@;
    let ghost prices = risk.prices_spec();
    let mut i: usize = 0;
    while i < n
        invariant
            hs == holdings@,
            n == hs.len(),
            prices == risk.prices_spec(),
            in_i128(per_asset_value * 100),
            i <= n,
            hedges@ == hedges_prefix(hs, prices, per_asset_value as int, i as int),
        decreases n - i,
    {
        let asset_id = holdings[i].asset;
        let price = match risk.get_asset_price(asset_id) {
            Some(p) => p,
            None => 1,
        };
        if price > 0 {
            let amount = div_toward_zero(per_asset_value * 100, price);
            if amount > 0 {
                hedges.push(HedgePosition {
                    asset: asset_id,
                    amount,
                    entry_price: price,
                    purpose: HedgePurpose::AssetSpecificHedge(asset_id),
                });
            }
        }
        i = i + 1;
    }
    hedges
}

// ---------------------------------------------------------------------------
// Trimming hedges
// ---------------------------------------------------------------------------

/// One step of trimming: with `remaining` value still to close, a hedge
/// worth at most that is closed, a larger one is cut by the remaining
/// value's units, and once nothing remains hedges are kept as they are.
pub open spec fn trim_step(acc: (Seq<HedgePosition>, Seq<u32>, int), h: HedgePosition, price: int) -> (Seq<HedgePosition>, Seq<u32>, int) {
    let (kept, ids, remaining) = acc;
    let val = tdiv(h.amount * price, 100);
    if remaining <= 0 {
        (kept.push(h), ids, remaining)
    } else if val <= remaining {
        (kept, ids.push(h.asset), remaining - val)
    } else {
        let units = tdiv(remaining * 100, crate::math::max(price, 1));
        let cut = HedgePosition { amount: (h.amount - units) as i128, ..h };
        (if cut.amount > 0 { kept.push(cut) } else { kept }, ids.push(h.asset), 0)
    }
}

/// Trim the first `k` hedges to close `reduce` worth of value: the kept
/// hedges, the assets traded and what remains to close.
pub open spec fn trim(hs: Seq<HedgePosition>, prices: Map<u128, i128>, reduce: int, k: int) -> (Seq<HedgePosition>, Seq<u32>, int)
    decreases k,
{
    if k <= 0 {
        (Seq::empty(), Seq::empty(), reduce)
    } else {
        trim_step(trim(hs, prices, reduce, k - 1), hs[k - 1], price_or(prices, hs[k - 1].asset, hs[k - 1].entry_price) as int)
    }
}

pub open spec fn step_fits(h: HedgePosition, price: int, remaining: int) -> bool {
    &&& in_i128(h.amount * price)
    &&& (remaining > 0 ==> {
        &&& in_i128(remaining - tdiv(h.amount * price, 100))
        &&& in_i128(remaining * 100)
        &&& in_i128(h.amount - tdiv(remaining * 100, crate::math::max(price, 1)))
    })
}

pub open spec fn trim_fits(hs: Seq<HedgePosition>, prices: Map<u128, i128>, reduce: int) -> bool {
    forall|k: int| 0 <= k < hs.len() ==>
        step_fits(#[trigger] hs[k], price_or(prices, hs[k].asset, hs[k].entry_price) as int, trim(hs, prices, reduce, k).2)
}

fn trim_one(kept: &mut Vec<HedgePosition>, ids: &mut Vec<u32>, remaining: i128, h: HedgePosition, price: i128) -> (r: i128)
    requires
        step_fits(h, price as int, remaining as int),
    ensures
        (final(kept)@, final(ids)@, r as int) == trim_step((old(kept)@, old(ids)@, remaining as int), h, price as int),
{
    let hedge_val = div_toward_zero(h.amount * price, 100);
    if remaining <= 0 {
        kept.push(h);
        remaining
    } else if hedge_val <= remaining {
        ids.push(h.asset);
        remaining - hedge_val
    } else {
        let floor_price = if price > 1 { price } else { 1 };
        let close_units = div_toward_zero(remaining * 100, floor_price);
        let mut cut = h;
        cut.amount = h.amount - close_units;
        ids.push(h.asset);
        if cut.amount > 0 {
            kept.push(cut);
        }
        0
    }
}

fn trim_hedges(hedges: &Vec<HedgePosition>, risk: &RiskBook, reduce_amount: i128) -> (r: (Vec<HedgePosition>, Vec<u32>))
    requires
        trim_fits(hedges@, risk.prices_spec(), reduce_amount as int),
    ensures
        r.0@ == trim(hedges@, risk.prices_spec(), reduce_amount as int, hedges@.len() as int).0,
        r.1@ == trim(hedges@, risk.prices_spec(), reduce_amount as int, hedges@.len() as int).1,
{
    let ghost hs = hedges@;
    let ghost prices = risk.prices_spec();
    let mut remaining = reduce_amount;
    let mut new_hedges: Vec<HedgePosition> = Vec::new();
    let mut trade_ids: Vec<u32> = Vec::new();
    let mut i: usize = 0;
    while i < hedges.len()
        invariant
            hs == hedges@,
            prices == risk.prices_spec(),
            trim_fits(hs, prices, reduce_amount as int),
            i <= hs.len(),
            (new_hedges@, trade_ids@, remaining as int) == trim(hs, prices, reduce_amount as int, i as int),
        decreases hs.len() - i,
    {
        let h = hedges[i];
        let price = match risk.get_asset_price(h.asset) {
            Some(p) => p,
            None => h.entry_price,
        };
        assert(step_fits(hs[i as int], price_or(prices, hs[i as int].asset, hs[i as int].entry_price) as int,
            trim(hs, prices, reduce_amount as int, i as int).2));
        remaining = trim_one(&mut new_hedges, &mut trade_ids, remaining, h, price);
        i = i + 1;
    }
    (new_hedges, trade_ids)
}

fn copy_hedges(v: &Vec<HedgePosition>) -> (r: Vec<HedgePosition>)
    ensures
        r@ == v@,
{
    let mut out: Vec<HedgePosition> = Vec::new();
    let mut i: usize = 0;
    while i < v.len()
        invariant
            i <= v@.len(),
            out@ == v@.take(i as int),
        decreases v@.len() - i,
    {
        out.push(v[i]);
        i = i + 1;
        proof { assert(out@ =~= v@.take(i as int)); }
    }
    proof { assert(v@.take(v@.len() as int) =~= v@); }
    out
}

pub open spec fn assets_of(hs: Seq<HedgePosition>) -> Seq<u32> {
    hs.map_values(|h: HedgePosition| h.asset)
}

fn append_hedges(dst: &mut Vec<HedgePosition>, ids: &mut Vec<u32>, src: &Vec<HedgePosition>)
    ensures
        final(dst)@ == old(dst)@ + src@,
        final(ids)@ == old(ids)@ + assets_of(src@),
{
    let mut i: usize = 0;
    while i < src.len()
        invariant
            i <= src@.len(),
            dst@ == old(dst)@ + src@.take(i as int),
            ids@ == old(ids)@ + assets_of(src@.take(i as int)),
        decreases src@.len() - i,
    {
        dst.push(src[i]);
        ids.push(src[i].asset);
        i = i + 1;
        proof {
            assert(dst@ =~= old(dst)@ + src@.take(i as int));
            assert(ids@ =~= old(ids)@ + assets_of(src@.take(i as int)));
        }
    }
    proof {
        assert(src@.take(src@.len() as int) =~= src@);
    }
}


/// The high-water mark after seeing portfolio value `cv`.
pub open spec fn next_hwm(hwm: int, cv: int) -> int {
    if cv > hwm { cv } else { hwm }
}

/// Drawdown below the high-water mark, in basis points; 0 with no mark.
pub open spec fn drawdown_spec(hwm: int, cv: int) -> int {
    if hwm == 0 { 0 } else { tdiv((hwm - cv) * 10_000, hwm) }
}

impl InsuranceBook {
    pub fn new() -> (b: Self)
        ensures
            b.insurance@ == Map::<u128, PortfolioInsurance>::empty(),
    {
        InsuranceBook { insurance: OrdMap::new() }
    }

    pub fn get_insurance(&self, user: AccountId) -> (r: Option<&PortfolioInsurance>)
        ensures
            match r {
                Some(i) => self.insurance@.contains_key(user as u128) && *i == self.insurance@[user as u128],
                None => !self.insurance@.contains_key(user as u128),
            },
    {
        self.insurance.get(user as u128)
    }

    /// Set the user's insurance parameters, keeping any high-water mark and
    /// open hedges.
    pub fn configure_insurance(&mut self, user: AccountId, enabled: bool, max_drawdown_bps: u32, hedge_ratio_bps: u32, rebalance_threshold_bps: u32)
        -> (r: Result<(), AutoTradeError>)
        ensures
            (max_drawdown_bps == 0 || max_drawdown_bps > 10_000 || hedge_ratio_bps == 0 || hedge_ratio_bps > 10_000) ==> {
                &&& r == Err::<(), AutoTradeError>(AutoTradeError::InvalidInsuranceConfig)
                &&& final(self).insurance@ == old(self).insurance@
            },
            !(max_drawdown_bps == 0 || max_drawdown_bps > 10_000 || hedge_ratio_bps == 0 || hedge_ratio_bps > 10_000) ==> {
                let k = user as u128;
                let had = old(self).insurance@.contains_key(k);
                &&& r is Ok
                &&& final(self).insurance@.dom() == old(self).insurance@.dom().insert(k)
                &&& forall|j: u128| j != k && #[trigger] old(self).insurance@.contains_key(j) ==> final(self).insurance@[j] == old(self).insurance@[j]
                &&& final(self).insurance@[k].user == user
                &&& final(self).insurance@[k].enabled == enabled
                &&& final(self).insurance@[k].max_drawdown_bps == max_drawdown_bps
                &&& final(self).insurance@[k].hedge_ratio_bps == hedge_ratio_bps
                &&& final(self).insurance@[k].rebalance_threshold_bps == rebalance_threshold_bps
                &&& final(self).insurance@[k].portfolio_high_water_mark == (if had { old(self).insurance@[k].portfolio_high_water_mark } else { 0 })
                &&& final(self).insurance@[k].active_hedges@ == (if had { old(self).insurance@[k].active_hedges@ } else { Seq::empty() })
            },
    {
        if max_drawdown_bps == 0 || max_drawdown_bps > 10_000 {
            return Err(AutoTradeError::InvalidInsuranceConfig);
        }
        if hedge_ratio_bps == 0 || hedge_ratio_bps > 10_000 {
            return Err(AutoTradeError::InvalidInsuranceConfig);
        }
        let k = user as u128;
        let (hwm, active_hedges) = match self.insurance.remove(k) {
            Some(existing) => (existing.portfolio_high_water_mark, existing.active_hedges),
            None => (0, Vec::new()),
        };
        let insurance = PortfolioInsurance {
            user,
            enabled,
            max_drawdown_bps,
            hedge_ratio_bps,
            rebalance_threshold_bps,
            active_hedges,
            portfolio_high_water_mark: hwm,
        };
        self.insurance.insert(k, insurance);
        Ok(())
    }

    /// The user's drawdown fits the arithmetic.
    pub open spec fn drawdown_fits(&self, risk: &RiskBook, user: AccountId) -> bool {
        let ins = self.insurance@[user as u128];
        let cv = portfolio_value(risk, user);
        self.insurance@.contains_key(user as u128) ==> {
            &&& holdings_value_fits(risk.holdings_spec(user), risk.prices_spec())
            &&& in_i128((next_hwm(ins.portfolio_high_water_mark as int, cv) - cv) * 10_000)
        }
    }

    /// Drawdown in basis points below the high-water mark, which is raised
    /// first when the portfolio has reached a new high.
    pub fn calculate_drawdown(&mut self, risk: &RiskBook, user: AccountId) -> (r: Result<i128, AutoTradeError>)
        requires
            old(self).drawdown_fits(risk, user),
        ensures
            ({
                let k = user as u128;
                let ins = old(self).insurance@[k];
                let cv = portfolio_value(risk, user);
                let hwm = next_hwm(ins.portfolio_high_water_mark as int, cv);
                if !old(self).insurance@.contains_key(k) {
                    r == Err::<i128, AutoTradeError>(AutoTradeError::InsuranceNotConfigured) && final(self).insurance@ == old(self).insurance@
                } else {
                    &&& r == Ok::<i128, AutoTradeError>(drawdown_spec(hwm, cv) as i128)
                    &&& final(self).insurance@ == old(self).insurance@.insert(k, PortfolioInsurance { portfolio_high_water_mark: hwm as i128, ..ins })
                }
            }),
    {
        let k = user as u128;
        let mut insurance = match self.insurance.remove(k) {
            Some(i) => i,
            None => return Err(AutoTradeError::InsuranceNotConfigured),
        };
        let current_value = risk.calculate_portfolio_value(user);
        if current_value > insurance.portfolio_high_water_mark {
            insurance.portfolio_high_water_mark = current_value;
        }
        let hwm = insurance.portfolio_high_water_mark;
        self.insurance.insert(k, insurance);
        proof {
            assert(self.insurance@ =~= old(self).insurance@.insert(k, self.insurance@[k]));
        }
        if hwm == 0 {
            return Ok(0);
        }
        Ok(div_toward_zero((hwm - current_value) * 10_000, hwm))
    }
}


impl InsuranceBook {
    /// After a drawdown at or past the trigger, hedge the configured share
    /// of the portfolio (once: not while hedges are open). Returns the
    /// hedged assets.
    pub fn check_and_apply_hedge(&mut self, risk: &RiskBook, user: AccountId) -> (r: Result<Vec<u32>, AutoTradeError>)
        requires
            old(self).drawdown_fits(risk, user),
            old(self).insurance@.contains_key(user as u128) ==> optimal_hedges_fit(risk.holdings_spec(user),
                portfolio_value(risk, user), old(self).insurance@[user as u128].hedge_ratio_bps as int),
        ensures
            ({
                let k = user as u128;
                let ins = old(self).insurance@[k];
                let cv = portfolio_value(risk, user);
                let hwm = next_hwm(ins.portfolio_high_water_mark as int, cv);
                let marked = old(self).insurance@.insert(k, PortfolioInsurance { portfolio_high_water_mark: hwm as i128, ..ins });
                let new_hedges = optimal_hedges(risk.holdings_spec(user), risk.prices_spec(), cv, ins.hedge_ratio_bps as int);
                if !old(self).insurance@.contains_key(k) {
                    r == Err::<Vec<u32>, AutoTradeError>(AutoTradeError::InsuranceNotConfigured) && final(self).insurance@ == old(self).insurance@
                } else if !ins.enabled {
                    r matches Ok(ids) && ids@.len() == 0 && final(self).insurance@ == old(self).insurance@
                } else if drawdown_spec(hwm, cv) < ins.max_drawdown_bps || ins.active_hedges@.len() != 0 || new_hedges.len() == 0 {
                    r matches Ok(ids) && ids@.len() == 0 && final(self).insurance@ == marked
                } else {
                    &&& r matches Ok(ids) && ids@ == assets_of(new_hedges)
                    &&& final(self).insurance@ == marked.insert(k, final(self).insurance@[k])
                    &&& final(self).insurance@[k].active_hedges@ == ins.active_hedges@ + new_hedges
                    &&& final(self).insurance@[k].portfolio_high_water_mark == hwm as i128
                    &&& final(self).insurance@[k].user == ins.user
                    &&& final(self).insurance@[k].enabled == ins.enabled
                    &&& final(self).insurance@[k].max_drawdown_bps == ins.max_drawdown_bps
                    &&& final(self).insurance@[k].hedge_ratio_bps == ins.hedge_ratio_bps
                    &&& final(self).insurance@[k].rebalance_threshold_bps == ins.rebalance_threshold_bps
                }
            }),
    {
        let k = user as u128;
        let (enabled, max_dd, ratio, hedged) = match self.insurance.get(k) {
            Some(i) => (i.enabled, i.max_drawdown_bps, i.hedge_ratio_bps, i.active_hedges.len() != 0),
            None => return Err(AutoTradeError::InsuranceNotConfigured),
        };
        if !enabled {
            return Ok(Vec::new());
        }
        let drawdown = self.calculate_drawdown(risk, user)?;
        if drawdown < max_dd as i128 {
            return Ok(Vec::new());
        }
        if hedged {
            return Ok(Vec::new());
        }
        let current_value = risk.calculate_portfolio_value(user);
        let hedges = calculate_optimal_hedges(risk, user, current_value, ratio);
        if hedges.len() == 0 {
            return Ok(Vec::new());
        }
        let mut trade_ids: Vec<u32> = Vec::new();
        let mut insurance = self.insurance.remove(k).unwrap();
        proof { assert(trade_ids@ =~= Seq::<u32>::empty()); }
        append_hedges(&mut insurance.active_hedges, &mut trade_ids, &hedges);
        self.insurance.insert(k, insurance);
        proof {
            assert(trade_ids@ =~= assets_of(hedges@));
        }
        Ok(trade_ids)
    }

    /// The arithmetic of resizing the user's hedges stays in range.
    pub open spec fn rebalance_fits(&self, risk: &RiskBook, user: AccountId) -> bool {
        let ins = self.insurance@[user as u128];
        let cv = portfolio_value(risk, user);
        let target = tdiv(cv * ins.hedge_ratio_bps, 10_000);
        let hs = ins.active_hedges@;
        let delta = target - hedges_value(hs, risk.prices_spec(), hs.len() as int);
        self.insurance@.contains_key(user as u128) ==> {
            &&& holdings_value_fits(risk.holdings_spec(user), risk.prices_spec())
            &&& in_i128(cv * ins.hedge_ratio_bps)
            &&& hedges_value_fit(hs, risk.prices_spec())
            &&& in_i128(delta)
            &&& delta > i128::MIN
            &&& in_i128(abs(delta) * 10_000)
            &&& optimal_hedges_fit(risk.holdings_spec(user), delta, 10_000)
            &&& trim_fits(hs, risk.prices_spec(), abs(delta))
        }
    }

    /// Bring the hedge value back to the configured share of the portfolio
    /// when it has drifted past the threshold: add hedges for a shortfall,
    /// close or cut hedges in order for an excess. Returns the assets traded.
    pub fn rebalance_hedges(&mut self, risk: &RiskBook, user: AccountId) -> (r: Result<Vec<u32>, AutoTradeError>)
        requires
            old(self).rebalance_fits(risk, user),
        ensures
            ({
                let k = user as u128;
                let ins = old(self).insurance@[k];
                let prices = risk.prices_spec();
                let cv = portfolio_value(risk, user);
                let target = tdiv(cv * ins.hedge_ratio_bps, 10_000);
                let hs = ins.active_hedges@;
                let delta = target - hedges_value(hs, prices, hs.len() as int);
                let delta_bps = tdiv(abs(delta) * 10_000, if target > 0 { target } else { 1 });
                let added = optimal_hedges(risk.holdings_spec(user), prices, delta, 10_000);
                let trimmed = trim(hs, prices, abs(delta), hs.len() as int);
                if !old(self).insurance@.contains_key(k) {
                    r == Err::<Vec<u32>, AutoTradeError>(AutoTradeError::InsuranceNotConfigured) && final(self).insurance@ == old(self).insurance@
                } else if !ins.enabled || hs.len() == 0 || delta_bps < ins.rebalance_threshold_bps {
                    r matches Ok(ids) && ids@.len() == 0 && final(self).insurance@ == old(self).insurance@
                } else {
                    &&& final(self).insurance@ == old(self).insurance@.insert(k, final(self).insurance@[k])
                    &&& final(self).insurance@[k].user == ins.user
                    &&& final(self).insurance@[k].enabled == ins.enabled
                    &&& final(self).insurance@[k].max_drawdown_bps == ins.max_drawdown_bps
                    &&& final(self).insurance@[k].hedge_ratio_bps == ins.hedge_ratio_bps
                    &&& final(self).insurance@[k].rebalance_threshold_bps == ins.rebalance_threshold_bps
                    &&& final(self).insurance@[k].portfolio_high_water_mark == ins.portfolio_high_water_mark
                    &&& if delta > 0 {
                        r matches Ok(ids) && ids@ == assets_of(added) && final(self).insurance@[k].active_hedges@ == hs + added
                    } else {
                        r matches Ok(ids) && ids@ == trimmed.1 && final(self).insurance@[k].active_hedges@ == trimmed.0
                    }
                }
            }),
    {
        let k = user as u128;
        let ins = match self.insurance.get(k) {
            Some(i) => i,
            None => return Err(AutoTradeError::InsuranceNotConfigured),
        };
        if !ins.enabled || ins.active_hedges.len() == 0 {
            return Ok(Vec::new());
        }
        let ghost hs = ins.active_hedges@;
        let ghost prices = risk.prices_spec();
        let current_value = risk.calculate_portfolio_value(user);
        let target_hedge_value = div_toward_zero(current_value * ins.hedge_ratio_bps as i128, 10_000);
        let mut current_hedge_value: i128 = 0;
        let mut i: usize = 0;
        while i < ins.active_hedges.len()
            invariant
                hs == ins.active_hedges@,
                prices == risk.prices_spec(),
                hedges_value_fit(hs, prices),
                i <= hs.len(),
                current_hedge_value == hedges_value(hs, prices, i as int),
            decreases hs.len() - i,
        {
            let h = ins.active_hedges[i];
            let price = match risk.get_asset_price(h.asset) {
                Some(p) => p,
                None => h.entry_price,
            };
            assert(in_i128(hedges_value(hs, prices, i + 1)));
            assert(in_i128(hs[(i + 1) - 1].amount * price_or(prices, hs[(i + 1) - 1].asset, hs[(i + 1) - 1].entry_price)));
            current_hedge_value = current_hedge_value + div_toward_zero(h.amount * price, 100);
            i = i + 1;
        }
        let hedge_delta = target_hedge_value - current_hedge_value;
        let denominator = if target_hedge_value > 0 { target_hedge_value } else { 1 };
        let magnitude = if hedge_delta < 0 { -hedge_delta } else { hedge_delta };
        let delta_bps = div_toward_zero(magnitude * 10_000, denominator);
        if delta_bps < ins.rebalance_threshold_bps as i128 {
            return Ok(Vec::new());
        }
        let mut trade_ids: Vec<u32> = Vec::new();
        if hedge_delta > 0 {
            let additional = calculate_optimal_hedges(risk, user, hedge_delta, 10_000);
            let mut insurance = self.insurance.remove(k).unwrap();
            proof { assert(trade_ids@ =~= Seq::<u32>::empty()); }
            append_hedges(&mut insurance.active_hedges, &mut trade_ids, &additional);
            self.insurance.insert(k, insurance);
            proof { assert(trade_ids@ =~= assets_of(additional@)); }
        } else {
            let (new_hedges, ids) = trim_hedges(&ins.active_hedges, risk, magnitude);
            let mut insurance = self.insurance.remove(k).unwrap();
            insurance.active_hedges = new_hedges;
            self.insurance.insert(k, insurance);
            trade_ids = ids;
        }
        proof {
            assert(self.insurance@ =~= old(self).insurance@.insert(k, self.insurance@[k]));
        }
        Ok(trade_ids)
    }

    /// Close every hedge once the drawdown is back under 5%. Returns the
    /// closed hedges' assets.
    pub fn remove_hedges_if_recovered(&mut self, risk: &RiskBook, user: AccountId) -> (r: Result<Vec<u32>, AutoTradeError>)
        requires
            old(self).drawdown_fits(risk, user),
        ensures
            ({
                let k = user as u128;
                let ins = old(self).insurance@[k];
                let cv = portfolio_value(risk, user);
                let hwm = next_hwm(ins.portfolio_high_water_mark as int, cv);
                let marked = old(self).insurance@.insert(k, PortfolioInsurance { portfolio_high_water_mark: hwm as i128, ..ins });
                if !old(self).insurance@.contains_key(k) {
                    r == Err::<Vec<u32>, AutoTradeError>(AutoTradeError::InsuranceNotConfigured) && final(self).insurance@ == old(self).insurance@
                } else if ins.active_hedges@.len() == 0 {
                    r matches Ok(ids) && ids@.len() == 0 && final(self).insurance@ == old(self).insurance@
                } else if drawdown_spec(hwm, cv) >= 500 {
                    r matches Ok(ids) && ids@.len() == 0 && final(self).insurance@ == marked
                } else {
                    &&& r matches Ok(ids) && ids@ == assets_of(ins.active_hedges@)
                    &&& final(self).insurance@ == marked.insert(k, final(self).insurance@[k])
                    &&& final(self).insurance@[k].active_hedges@.len() == 0
                    &&& final(self).insurance@[k].portfolio_high_water_mark == hwm as i128
                    &&& final(self).insurance@[k].user == ins.user
                    &&& final(self).insurance@[k].enabled == ins.enabled
                    &&& final(self).insurance@[k].max_drawdown_bps == ins.max_drawdown_bps
                    &&& final(self).insurance@[k].hedge_ratio_bps == ins.hedge_ratio_bps
                    &&& final(self).insurance@[k].rebalance_threshold_bps == ins.rebalance_threshold_bps
                }
            }),
    {
        let k = user as u128;
        let empty = match self.insurance.get(k) {
            Some(i) => i.active_hedges.len() == 0,
            None => return Err(AutoTradeError::InsuranceNotConfigured),
        };
        if empty {
            return Ok(Vec::new());
        }
        let drawdown = self.calculate_drawdown(risk, user)?;
        if drawdown >= 500 {
            return Ok(Vec::new());
        }
        let ghost after_dd = self.insurance@;
        let mut insurance = self.insurance.remove(k).unwrap();
        let mut trade_ids: Vec<u32> = Vec::new();
        let mut closed: Vec<HedgePosition> = Vec::new();
        proof { assert(trade_ids@ =~= Seq::<u32>::empty()); }
        append_hedges(&mut closed, &mut trade_ids, &insurance.active_hedges);
        insurance.active_hedges = Vec::new();
        self.insurance.insert(k, insurance);
        proof {
            assert(trade_ids@ =~= assets_of(old(self).insurance@[k].active_hedges@));
            assert(self.insurance@ =~= after_dd.insert(k, self.insurance@[k]));
        }
        Ok(trade_ids)
    }
}

}

verus! {

/// Trimming a hedge while `remaining > 0` value is still to be closed trades
/// it, and closes no more of it than that value:
/// - a hedge worth at most what remains (to within the rounding of its value
///   to whole units) is closed entirely and what remains shrinks by its value;
/// - a hedge worth more is never dropped: it is kept with the same asset,
///   price and purpose and a positive amount no larger, the units closed are
///   worth at most `remaining` and one more unit would be worth more, and
///   nothing remains to close afterwards.
pub proof fn law_trim_closes_only_what_remains(kept: Seq<HedgePosition>, ids: Seq<u32>, remaining: int, h: HedgePosition, price: int)
    requires
        remaining > 0,
        price > 0,
        h.amount > 0,
        step_fits(h, price, remaining),
    ensures
        ({
            let r = trim_step((kept, ids, remaining), h, price);
            &&& r.1 == ids.push(h.asset)
            &&& if h.amount * price < 100 * (remaining + 1) {
                &&& r.0 == kept
                &&& h.amount * price <= 100 * remaining + 99
                &&& r.2 == remaining - (h.amount * price) / 100
                &&& r.2 >= 0
            } else {
                &&& r.0.len() == kept.len() + 1
                &&& r.0.take(kept.len() as int) == kept
                &&& r.0.last().asset == h.asset
                &&& r.0.last().entry_price == h.entry_price
                &&& r.0.last().purpose == h.purpose
                &&& 0 < r.0.last().amount <= h.amount
                &&& (h.amount - r.0.last().amount) * price <= 100 * remaining
                &&& (h.amount - r.0.last().amount + 1) * price > 100 * remaining
                &&& r.2 == 0
            }
        }),
{
    let a = h.amount as int;
    let prod = a * price;
    assert(prod > 0) by (nonlinear_arith) requires a > 0, price > 0, prod == a * price;
    let val = tdiv(prod, 100);
    assert(val == prod / 100);
    let r = trim_step((kept, ids, remaining), h, price);
    if prod < 100 * (remaining + 1) {
        assert(val <= remaining);
        assert(prod <= 100 * remaining + 99);
        assert(r.0 == kept);
        assert(r.1 == ids.push(h.asset));
        assert(r.2 == remaining - val);
    } else {
        assert(val > remaining);
        let units = tdiv(remaining * 100, crate::math::max(price, 1));
        assert(units == (remaining * 100) / price);
        assert(units * price <= remaining * 100 && remaining * 100 < (units + 1) * price && units >= 0) by (nonlinear_arith)
            requires units == (remaining * 100) / price, price > 0, remaining > 0;
        assert(units < a) by (nonlinear_arith)
            requires units * price <= remaining * 100, prod == a * price, prod >= 100 * (remaining + 1), price > 0;
        let cut = HedgePosition { amount: (h.amount - units) as i128, ..h };
        assert(cut.amount == a - units);
        assert(r.0 == kept.push(cut));
        assert(r.0.take(kept.len() as int) =~= kept);
        assert(h.amount - r.0.last().amount == units);
    }
}

}
