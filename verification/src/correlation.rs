//! Correlation risk: Pearson correlation of assets' recent price samples,
//! a cached pairwise matrix per user, limits on correlated exposure, and
//! suggestions of weakly correlated assets.
use vstd::prelude::*;
use crate::errors::AutoTradeError;
use crate::math::{abs, div_toward_zero, in_i128, min, sqrt_result, tdiv};
use crate::risk::{holdings_value, holdings_value_fits, valuation_price, Holding, RiskBook};
use crate::store::OrdMap;
use crate::strategies::stat_arb::{integer_sqrt, isqrt_spec, lemma_sqrt_unique};
use crate::AccountId;

verus! {

/// The persistent slots of a user's correlation limits and cached matrix.
#[derive(Clone, Copy, Debug, PartialEq, Eq, Structural)]
pub enum CorrKey {
    Limits(AccountId),
    Matrix(AccountId),
}

/// Correlation (basis points) above which two assets count as highly correlated.
pub const HIGH_CORR_THRESHOLD: i128 = 7000;
/// Correlation below which an asset diversifies.
pub const LOW_CORR_THRESHOLD: i128 = 3000;
pub const CORR_SCALE: i128 = 10_000;
/// A cached matrix is rebuilt after a day.
pub const MATRIX_TTL_SECS: u64 = 86_400;

#[derive(Clone, Copy, Debug, PartialEq, Eq, Structural)]
pub enum RiskLevel {
    Low,
    Medium,
    High,
}

#[derive(Clone, Copy, Debug, PartialEq, Eq, Structural)]
pub struct CorrelationRisk {
    /// Share (percent) of the portfolio after the trade held in assets highly
    /// correlated with the new asset.
    pub correlated_exposure_pct: i128,
    /// Holdings whose |correlation| with the new asset exceeds the threshold.
    pub highly_correlated_assets: u32,
    pub risk_level: RiskLevel,
}

#[derive(Clone, Copy, Debug, PartialEq, Eq, Structural)]
pub struct CorrelationLimits {
    pub max_correlated_exposure_pct: u32,
    pub max_single_correlation: u32,
    pub max_correlated_positions: u32,
}

pub open spec fn default_limits() -> CorrelationLimits {
    CorrelationLimits { max_correlated_exposure_pct: 70, max_single_correlation: 7000, max_correlated_positions: 3 }
}

impl Default for CorrelationLimits {
    fn default() -> (r: Self)
        ensures
            r == default_limits(),
    {
        CorrelationLimits { max_correlated_exposure_pct: 70, max_single_correlation: 7000, max_correlated_positions: 3 }
    }
}

/// Pairwise correlations keyed by `pair_key`, and when they were computed.
pub struct CorrelationMatrix {
    pub correlations: OrdMap<i128>,
    pub last_updated: u64,
}

/// Key of an ordered pair of assets.
pub open spec fn pair_key_spec(a: u32, b: u32) -> u64 {
    (a * 1_000_000 + b) as u64
}

pub fn pair_key(a: u32, b: u32) -> (k: u64)
    ensures
        k == pair_key_spec(a, b),
{
    assert(a * 1_000_000 + b <= u64::MAX) by (nonlinear_arith)
        requires a <= u32::MAX, b <= u32::MAX;
    (a as u64) * 1_000_000 + (b as u64)
}

/// Integer square root; 0 for non-positive values.
pub fn isqrt(n: i128) -> (r: i128)
    requires
        n < i128::MAX,
    ensures
        sqrt_result(n as int, r as int),
{
    integer_sqrt(n)
}

// ---------------------------------------------------------------------------
// Price windows
// ---------------------------------------------------------------------------

/// The last `min(window, count, 30)` recorded prices of an asset, oldest first.
pub open spec fn window_prices(risk: &RiskBook, asset: u32, window: u32) -> Seq<i128> {
    let count = risk.history_count(asset);
    let w = min(min(window as int, count), 30);
    if count == 0 { Seq::empty() } else { Seq::new(w as nat, |j: int| risk.history_slots(asset)[(count - w + j) % 30]) }
}

pub fn get_price_history(risk: &RiskBook, asset_id: u32, window: u32) -> (r: Vec<i128>)
    requires
        risk.wf(),
        risk.history_count(asset_id) + 30 <= u32::MAX,
    ensures
        r@ == window_prices(risk, asset_id, window),
{
    let count = risk.price_history_count(asset_id);
    if count == 0 {
        return Vec::new();
    }
    proof { risk.lemma_history_shape(asset_id); }
    let w1 = if window < count { window } else { count };
    let w = if w1 < 30 { w1 } else { 30 };
    let ghost slots = risk.history_slots(asset_id);
    let mut newest_first: Vec<i128> = Vec::new();
    let mut i: u32 = 0;
    while i < w
        invariant
            count == risk.history_count(asset_id),
            count + 30 <= u32::MAX,
            count > 0,
            w == min(min(window as int, count as int), 30),
            slots == risk.history_slots(asset_id),
            slots.len() == min(count as int, 30),
            i <= w,
            newest_first@.len() == i,
            forall|k: int| 0 <= k < i ==> newest_first@[k] == slots[(count + 29 - k) % 30],
        decreases w - i,
    {
        let idx = (count + 30 - 1 - i) % 30;
        assert((idx as int) < slots.len()) by (nonlinear_arith)
            requires idx as int == (count + 29 - i) % 30, slots.len() == min(count as int, 30), i < w, w <= count, w <= 30;
        let price = risk.price_history_slot(asset_id, idx).unwrap();
        newest_first.push(price);
        i = i + 1;
    }
    let mut prices: Vec<i128> = Vec::new();
    let mut j: u32 = 0;
    while j < w
        invariant
            j <= w,
            newest_first@.len() == w,
            count > 0,
            w <= count,
            prices@.len() == j,
            forall|k: int| 0 <= k < j ==> prices@[k] == newest_first@[w - 1 - k],
        decreases w - j,
    {
        prices.push(newest_first[(w - 1 - j) as usize]);
        j = j + 1;
    }
    proof {
        assert forall|k: int| 0 <= k < w implies prices@[k] == slots[(count - w + k) % 30] by {
            assert(newest_first@[w - 1 - k] == slots[(count + 29 - (w - 1 - k)) % 30]);
            assert((count + 29 - (w - 1 - k)) % 30 == (count - w + k) % 30) by (nonlinear_arith)
                requires 0 <= k < w, w <= count;
        }
        assert(prices@ =~= window_prices(risk, asset_id, window));
    }
    prices
}

// ---------------------------------------------------------------------------
// Pearson correlation
// ---------------------------------------------------------------------------

pub open spec fn prefix_sum(s: Seq<i128>, k: int) -> int
    decreases k,
{
    if k <= 0 { 0 } else { prefix_sum(s, k - 1) + s[k - 1] }
}

/// Sum over the first `k` indices of `(a[i] - ma) * (b[i] - mb)`.
pub open spec fn cross_sum(a: Seq<i128>, b: Seq<i128>, ma: int, mb: int, k: int) -> int
    decreases k,
{
    if k <= 0 { 0 } else { cross_sum(a, b, ma, mb, k - 1) + (a[k - 1] - ma) * (b[k - 1] - mb) }
}

/// Correlation in basis points of two series over their common length; 0
/// with fewer than two points or a flat series.
pub open spec fn pearson(xs: Seq<i128>, ys: Seq<i128>) -> int {
    let n = min(xs.len() as int, ys.len() as int);
    let ma = tdiv(prefix_sum(xs, n), n);
    let mb = tdiv(prefix_sum(ys, n), n);
    let den = isqrt_spec(cross_sum(xs, xs, ma, ma, n) * cross_sum(ys, ys, mb, mb, n));
    if n < 2 || den == 0 { 0 } else { tdiv(cross_sum(xs, ys, ma, mb, n) * 10_000, den) }
}

pub open spec fn pearson_fits(xs: Seq<i128>, ys: Seq<i128>) -> bool {
    let n = min(xs.len() as int, ys.len() as int);
    let ma = tdiv(prefix_sum(xs, n), n);
    let mb = tdiv(prefix_sum(ys, n), n);
    n >= 2 ==> {
        &&& forall|k: int| 0 < k <= n ==> in_i128(#[trigger] prefix_sum(xs, k)) && in_i128(prefix_sum(ys, k))
        &&& forall|k: int| 0 < k <= n ==> {
            &&& in_i128(xs[k - 1] - ma) && in_i128(ys[k - 1] - mb)
            &&& in_i128((xs[k - 1] - ma) * (ys[k - 1] - mb))
            &&& in_i128((xs[k - 1] - ma) * (xs[k - 1] - ma))
            &&& in_i128((ys[k - 1] - mb) * (ys[k - 1] - mb))
            &&& in_i128(#[trigger] cross_sum(xs, ys, ma, mb, k))
            &&& in_i128(cross_sum(xs, xs, ma, ma, k))
            &&& in_i128(cross_sum(ys, ys, mb, mb, k))
        }
        &&& in_i128(cross_sum(xs, xs, ma, ma, n) * cross_sum(ys, ys, mb, mb, n))
        &&& cross_sum(xs, xs, ma, ma, n) * cross_sum(ys, ys, mb, mb, n) < i128::MAX
        &&& in_i128(cross_sum(xs, ys, ma, mb, n) * 10_000)
    }
}

fn pearson_of(xs: &Vec<i128>, ys: &Vec<i128>) -> (r: i128)
    requires
        pearson_fits(xs@, ys@),
    ensures
        r == pearson(xs@, ys@),
{
    let n_len = if xs.len() < ys.len() { xs.len() } else { ys.len() };
    if n_len < 2 {
        return 0;
    }
    let ghost a = xs@;
    let ghost b = ys@;
    let mut sum_a: i128 = 0;
    let mut sum_b: i128 = 0;
    let mut i: usize = 0;
    while i < n_len
        invariant
            a == xs@,
            b == ys@,
            n_len == min(a.len() as int, b.len() as int),
            n_len >= 2,
            pearson_fits(a, b),
            i <= n_len,
            sum_a == prefix_sum(a, i as int),
            sum_b == prefix_sum(b, i as int),
        decreases n_len - i,
    {
        assert(in_i128(prefix_sum(a, i + 1)) && in_i128(prefix_sum(b, i + 1)));
        sum_a = sum_a + xs[i];
        sum_b = sum_b + ys[i];
        i = i + 1;
    }
    let n = n_len as i128;
    let mean_a = div_toward_zero(sum_a, n);
    let mean_b = div_toward_zero(sum_b, n);
    let mut numerator: i128 = 0;
    let mut sum_sq_a: i128 = 0;
    let mut sum_sq_b: i128 = 0;
    let mut j: usize = 0;
    while j < n_len
        invariant
            a == xs@,
            b == ys@,
            n_len == min(a.len() as int, b.len() as int),
            n == n_len,
            n_len >= 2,
            pearson_fits(a, b),
            mean_a == tdiv(prefix_sum(a, n as int), n as int),
            mean_b == tdiv(prefix_sum(b, n as int), n as int),
            j <= n_len,
            numerator == cross_sum(a, b, mean_a as int, mean_b as int, j as int),
            sum_sq_a == cross_sum(a, a, mean_a as int, mean_a as int, j as int),
            sum_sq_b == cross_sum(b, b, mean_b as int, mean_b as int, j as int),
        decreases n_len - j,
    {
        assert(in_i128(cross_sum(a, b, mean_a as int, mean_b as int, j + 1)));
        assert(in_i128(a[(j + 1) - 1] - mean_a) && in_i128(b[(j + 1) - 1] - mean_b));
        let da = xs[j] - mean_a;
        let db = ys[j] - mean_b;
        numerator = numerator + da * db;
        sum_sq_a = sum_sq_a + da * da;
        sum_sq_b = sum_sq_b + db * db;
        j = j + 1;
    }
    let denominator = isqrt(sum_sq_a * sum_sq_b);
    proof {
        lemma_sqrt_unique((sum_sq_a * sum_sq_b) as int, isqrt_spec((sum_sq_a * sum_sq_b) as int), denominator as int);
    }
    if denominator == 0 {
        return 0;
    }
    div_toward_zero(numerator * CORR_SCALE, denominator)
}

/// The correlation of two assets: the Pearson correlation of their price
/// windows, taken on the prices themselves (so that two series moving in
/// opposite directions correlate negatively); 0 with fewer than three
/// samples in either window.
pub open spec fn correlation_spec(risk: &RiskBook, a: u32, b: u32, window: u32) -> int {
    let pa = window_prices(risk, a, window);
    let pb = window_prices(risk, b, window);
    if min(pa.len() as int, pb.len() as int) < 3 { 0 } else { pearson(pa, pb) }
}

pub open spec fn correlation_fits(risk: &RiskBook, a: u32, b: u32, window: u32) -> bool {
    let pa = window_prices(risk, a, window);
    let pb = window_prices(risk, b, window);
    &&& risk.wf()
    &&& risk.history_count(a) + 30 <= u32::MAX
    &&& risk.history_count(b) + 30 <= u32::MAX
    &&& min(pa.len() as int, pb.len() as int) >= 3 ==> pearson_fits(pa, pb)
}

/// Pearson correlation of the two assets' last `window` price samples (at most
/// 30), in basis points; 0 with too little history.
pub fn calculate_correlation(risk: &RiskBook, asset_a: u32, asset_b: u32, window: u32) -> (r: i128)
    requires
        correlation_fits(risk, asset_a, asset_b, window),
    ensures
        r == correlation_spec(risk, asset_a, asset_b, window),
{
    let prices_a = get_price_history(risk, asset_a, window);
    let prices_b = get_price_history(risk, asset_b, window);
    let min_len = if prices_a.len() < prices_b.len() { prices_a.len() } else { prices_b.len() };
    if min_len < 3 {
        return 0;
    }
    pearson_of(&prices_a, &prices_b)
}


// ---------------------------------------------------------------------------
// The pairwise matrix
// ---------------------------------------------------------------------------

/// Writes for row `i`: the pairs `(assets[i], assets[j])` for the first `k`
/// assets after `i`, both orders, each with the pair's correlation.
pub open spec fn row_writes(risk: &RiskBook, assets: Seq<u32>, i: int, k: int) -> Seq<(u64, i128)>
    decreases k,
{
    if k <= 0 {
        Seq::empty()
    } else {
        let j = i + k;
        let (a, b) = (assets[i], assets[j]);
        let c = correlation_spec(risk, a, b, 30) as i128;
        row_writes(risk, assets, i, k - 1).push((pair_key_spec(a, b), c)).push((pair_key_spec(b, a), c))
    }
}

/// Writes for the first `m` rows, in order.
pub open spec fn matrix_writes(risk: &RiskBook, assets: Seq<u32>, m: int) -> Seq<(u64, i128)>
    decreases m,
{
    if m <= 0 { Seq::empty() } else { matrix_writes(risk, assets, m - 1) + row_writes(risk, assets, m - 1, assets.len() - m) }
}

/// The map after applying the writes in order.
pub open spec fn apply_writes(ws: Seq<(u64, i128)>) -> Map<u128, i128>
    decreases ws.len(),
{
    if ws.len() == 0 { Map::empty() } else { apply_writes(ws.drop_last()).insert(ws.last().0 as u128, ws.last().1) }
}

proof fn lemma_apply_push(ws: Seq<(u64, i128)>, x: (u64, i128))
    ensures
        apply_writes(ws.push(x)) == apply_writes(ws).insert(x.0 as u128, x.1),
{
    assert(ws.push(x).drop_last() =~= ws);
}

/// Every pair of the list can be correlated within range.
pub open spec fn matrix_fits(risk: &RiskBook, assets: Seq<u32>) -> bool {
    forall|i: int, j: int| 0 <= i < j < assets.len() ==> correlation_fits(risk, #[trigger] assets[i], #[trigger] assets[j], 30)
}

/// Correlations of every pair of the listed assets, at `now`.
pub fn build_correlation_matrix(risk: &RiskBook, assets: &Vec<u32>, now: u64) -> (m: CorrelationMatrix)
    requires
        matrix_fits(risk, assets@),
    ensures
        m.correlations@ == apply_writes(matrix_writes(risk, assets@, assets@.len() as int)),
        m.last_updated == now,
{
    let mut correlations: OrdMap<i128> = OrdMap::new();
    let len = assets.len();
    let ghost a = assets@;
    let mut i: usize = 0;
    proof { assert(correlations@ =~= apply_writes(Seq::empty())); }
    while i < len
        invariant
            a == assets@,
            len == a.len(),
            matrix_fits(risk, a),
            i <= len,
            correlations@ == apply_writes(matrix_writes(risk, a, i as int)),
        decreases len - i,
    {
        let x = assets[i];
        let ghost base = matrix_writes(risk, a, i as int);
        let mut j: usize = i + 1;
        proof { assert(base + row_writes(risk, a, i as int, 0) =~= base); }
        while j < len
            invariant
                a == assets@,
                len == a.len(),
                matrix_fits(risk, a),
                i < len,
                i + 1 <= j <= len,
                x == a[i as int],
                correlations@ == apply_writes(base + row_writes(risk, a, i as int, j - i - 1)),
            decreases len - j,
        {
            let y = assets[j];
            assert(correlation_fits(risk, a[i as int], a[j as int], 30));
            let corr = calculate_correlation(risk, x, y, 30);
            let k1 = pair_key(x, y);
            let k2 = pair_key(y, x);
            correlations.insert(k1 as u128, corr);
            correlations.insert(k2 as u128, corr);
            proof {
                let prev = base + row_writes(risk, a, i as int, j - i - 1);
                let w1 = (pair_key_spec(x, y), corr);
                let w2 = (pair_key_spec(y, x), corr);
                lemma_apply_push(prev, w1);
                lemma_apply_push(prev.push(w1), w2);
                assert(base + row_writes(risk, a, i as int, j - i) =~= prev.push(w1).push(w2));
            }
            j = j + 1;
        }
        i = i + 1;
    }
    CorrelationMatrix { correlations, last_updated: now }
}

/// Limits and cached matrices by user.
pub struct CorrBook {
    pub limits: OrdMap<CorrelationLimits>,
    pub matrices: OrdMap<CorrelationMatrix>,
}

impl CorrBook {
    pub fn new() -> (b: Self)
        ensures
            b.limits@ == Map::<u128, CorrelationLimits>::empty(),
            b.matrices@ == Map::<u128, CorrelationMatrix>::empty(),
    {
        CorrBook { limits: OrdMap::new(), matrices: OrdMap::new() }
    }

    /// The user's limits, or the defaults (70% exposure, 0.7 correlation,
    /// three correlated positions).
    pub fn get_correlation_limits(&self, user: AccountId) -> (r: CorrelationLimits)
        ensures
            r == (if self.limits@.contains_key(user as u128) { self.limits@[user as u128] } else { default_limits() }),
    {
        match self.limits.get(user as u128) {
            Some(l) => *l,
            None => CorrelationLimits { max_correlated_exposure_pct: 70, max_single_correlation: 7000, max_correlated_positions: 3 },
        }
    }

    pub fn set_correlation_limits(&mut self, user: AccountId, limits: &CorrelationLimits)
        ensures
            final(self).limits@ == old(self).limits@.insert(user as u128, *limits),
            final(self).matrices@ == old(self).matrices@,
    {
        self.limits.insert(user as u128, *limits);
    }

    /// A cached matrix younger than a day is kept.
    pub open spec fn cache_fresh(&self, user: AccountId, now: u64) -> bool {
        self.matrices@.contains_key(user as u128)
            && (if now >= self.matrices@[user as u128].last_updated { now - self.matrices@[user as u128].last_updated } else { 0 }) < MATRIX_TTL_SECS
    }

    /// Keep a fresh cached matrix, else build and cache one for `assets`.
    pub fn get_or_build_matrix(&mut self, risk: &RiskBook, user: AccountId, assets: &Vec<u32>, now: u64)
        requires
            !old(self).cache_fresh(user, now) ==> matrix_fits(risk, assets@),
        ensures
            final(self).limits@ == old(self).limits@,
            old(self).cache_fresh(user, now) ==> final(self).matrices@ == old(self).matrices@,
            !old(self).cache_fresh(user, now) ==> {
                &&& final(self).matrices@.dom() == old(self).matrices@.dom().insert(user as u128)
                &&& forall|k: u128| k != user as u128 && #[trigger] old(self).matrices@.contains_key(k) ==> final(self).matrices@[k] == old(self).matrices@[k]
                &&& final(self).matrices@[user as u128].correlations@ == apply_writes(matrix_writes(risk, assets@, assets@.len() as int))
                &&& final(self).matrices@[user as u128].last_updated == now
            },
    {
        let k = user as u128;
        match self.matrices.get(k) {
            Some(cached) => {
                let age = if now >= cached.last_updated { now - cached.last_updated } else { 0 };
                if age < MATRIX_TTL_SECS {
                    return;
                }
            },
            None => {},
        }
        let matrix = build_correlation_matrix(risk, assets, now);
        self.matrices.insert(k, matrix);
    }
}


// ---------------------------------------------------------------------------
// Correlation risk of a new trade
// ---------------------------------------------------------------------------

pub open spec fn held_assets(hs: Seq<Holding>) -> Seq<u32> {
    hs.map_values(|h: Holding| h.asset)
}

/// The assets the matrix is built over: the holdings, then the new asset
/// if it is not held.
pub open spec fn ids_for(hs: Seq<Holding>, new_asset: u32) -> Seq<u32> {
    if held_assets(hs).contains(new_asset) { held_assets(hs) } else { held_assets(hs).push(new_asset) }
}

pub open spec fn corr_lookup(m: Map<u128, i128>, a: u32, b: u32) -> i128 {
    if m.contains_key(pair_key_spec(a, b) as u128) { m[pair_key_spec(a, b) as u128] } else { 0 }
}

/// Value and count of the first `k` holdings (other than the new asset)
/// whose |correlation| with the new asset exceeds 0.7.
pub open spec fn exposure_scan(hs: Seq<Holding>, m: Map<u128, i128>, prices: Map<u128, i128>, new_asset: u32, k: int) -> (int, int)
    decreases k,
{
    if k <= 0 {
        (0, 0)
    } else {
        let prev = exposure_scan(hs, m, prices, new_asset, k - 1);
        let h = hs[k - 1];
        if h.asset != new_asset && abs(corr_lookup(m, h.asset, new_asset) as int) > 7000 {
            (prev.0 + tdiv(h.position.amount * valuation_price(h, prices), 100), prev.1 + 1)
        } else {
            prev
        }
    }
}

pub open spec fn risk_level_of(pct: int) -> RiskLevel {
    if pct > 70 { RiskLevel::High } else if pct > 50 { RiskLevel::Medium } else { RiskLevel::Low }
}

/// The correlation risk of adding `new_amount` of `new_asset` given the
/// holdings, their value `pv`, and the correlations `m`.
pub open spec fn correlation_risk_spec(hs: Seq<Holding>, m: Map<u128, i128>, prices: Map<u128, i128>, pv: int, new_asset: u32, new_amount: int) -> CorrelationRisk {
    let scan = exposure_scan(hs, m, prices, new_asset, hs.len() as int);
    let base = if pv + new_amount > 0 { pv + new_amount } else { 1 };
    let pct = tdiv(scan.0 * 100, base);
    CorrelationRisk { correlated_exposure_pct: pct as i128, highly_correlated_assets: scan.1 as u32, risk_level: risk_level_of(pct) }
}

pub open spec fn scan_fits(hs: Seq<Holding>, m: Map<u128, i128>, prices: Map<u128, i128>, new_asset: u32, new_amount: int) -> bool {
    &&& hs.len() < u32::MAX
    &&& forall|k: int| 0 < k <= hs.len() ==> {
        &&& corr_lookup(m, (#[trigger] hs[k - 1]).asset, new_asset) != i128::MIN
        &&& in_i128(hs[k - 1].position.amount * valuation_price(hs[k - 1], prices))
        &&& in_i128(exposure_scan(hs, m, prices, new_asset, k).0)
    }
    &&& in_i128(exposure_scan(hs, m, prices, new_asset, hs.len() as int).0 * 100)
}

proof fn lemma_scan_count(hs: Seq<Holding>, m: Map<u128, i128>, prices: Map<u128, i128>, new_asset: u32, k: int)
    requires
        0 <= k,
    ensures
        0 <= exposure_scan(hs, m, prices, new_asset, k).1 <= k,
    decreases k,
{
    if k > 0 {
        lemma_scan_count(hs, m, prices, new_asset, k - 1);
    }
}

fn collect_asset_ids(holdings: &Vec<Holding>, new_asset: u32) -> (r: Vec<u32>)
    ensures
        r@ == ids_for(holdings@, new_asset),
{
    let mut ids: Vec<u32> = Vec::new();
    let mut i: usize = 0;
    while i < holdings.len()
        invariant
            i <= holdings@.len(),
            ids@ == held_assets(holdings@).take(i as int),
        decreases holdings@.len() - i,
    {
        ids.push(holdings[i].asset);
        i = i + 1;
        proof { assert(ids@ =~= held_assets(holdings@).take(i as int)); }
    }
    proof { assert(ids@ =~= held_assets(holdings@)); }
    let mut found = false;
    let mut j: usize = 0;
    while j < ids.len()
        invariant
            ids@ == held_assets(holdings@),
            j <= ids@.len(),
            found == (exists|t: int| 0 <= t < j && ids@[t] == new_asset),
        decreases ids@.len() - j,
    {
        if ids[j] == new_asset {
            found = true;
        }
        j = j + 1;
    }
    if !found {
        ids.push(new_asset);
    }
    ids
}

impl CorrBook {
    /// The matrix a check at `now` reads: the fresh cached one, else one
    /// built over `assets`.
    pub open spec fn matrix_used(&self, risk: &RiskBook, user: AccountId, assets: Seq<u32>, now: u64) -> Map<u128, i128> {
        if self.cache_fresh(user, now) {
            self.matrices@[user as u128].correlations@
        } else {
            apply_writes(matrix_writes(risk, assets, assets.len() as int))
        }
    }

    pub open spec fn check_fits(&self, risk: &RiskBook, user: AccountId, new_asset: u32, new_amount: i128, now: u64) -> bool {
        let hs = risk.holdings_spec(user);
        let ids = ids_for(hs, new_asset);
        &&& holdings_value_fits(hs, risk.prices_spec())
        &&& in_i128(holdings_value(hs, risk.prices_spec()) + new_amount)
        &&& (!self.cache_fresh(user, now) ==> matrix_fits(risk, ids))
        &&& scan_fits(hs, self.matrix_used(risk, user, ids, now), risk.prices_spec(), new_asset, new_amount as int)
    }

    /// The correlation risk of adding `new_amount` of `new_asset` to the
    /// user's holdings; refreshes the cached matrix when stale.
    pub fn check_portfolio_correlation(&mut self, risk: &RiskBook, user: AccountId, new_asset: u32, new_amount: i128, now: u64)
        -> (r: Result<CorrelationRisk, AutoTradeError>)
        requires
            old(self).check_fits(risk, user, new_asset, new_amount, now),
        ensures
            final(self).limits@ == old(self).limits@,
            ({
                let hs = risk.holdings_spec(user);
                let ids = ids_for(hs, new_asset);
                let m = old(self).matrix_used(risk, user, ids, now);
                &&& final(self).matrices@.contains_key(user as u128)
                &&& final(self).matrices@[user as u128].correlations@ == m
                &&& (old(self).cache_fresh(user, now) ==> final(self).matrices@ == old(self).matrices@)
                &&& (!old(self).cache_fresh(user, now) ==> final(self).matrices@[user as u128].last_updated == now
                    && final(self).matrices@.dom() == old(self).matrices@.dom().insert(user as u128)
                    && forall|k: u128| k != user as u128 && #[trigger] old(self).matrices@.contains_key(k) ==> final(self).matrices@[k] == old(self).matrices@[k])
                &&& r == Ok::<CorrelationRisk, AutoTradeError>(correlation_risk_spec(hs, m, risk.prices_spec(),
                        holdings_value(hs, risk.prices_spec()), new_asset, new_amount as int))
            }),
    {
        let holdings = risk.holdings(user);
        let total_portfolio_value = risk.calculate_portfolio_value(user);
        let asset_ids = collect_asset_ids(&holdings, new_asset);
        self.get_or_build_matrix(risk, user, &asset_ids, now);
        let ghost hs = holdings@;
        let ghost prices = risk.prices_spec();
        let matrix = self.matrices.get(user as u128).unwrap();
        let ghost m = matrix.correlations@;
        let mut high_corr_exposure: i128 = 0;
        let mut high_corr_count: u32 = 0;
        let mut i: usize = 0;
        while i < holdings.len()
            invariant
                hs == holdings@,
                prices == risk.prices_spec(),
                m == matrix.correlations@,
                scan_fits(hs, m, prices, new_asset, new_amount as int),
                i <= hs.len(),
                high_corr_exposure == exposure_scan(hs, m, prices, new_asset, i as int).0,
                high_corr_count == exposure_scan(hs, m, prices, new_asset, i as int).1,
            decreases hs.len() - i,
        {
            let h = holdings[i];
            proof { lemma_scan_count(hs, m, prices, new_asset, i as int); }
            if h.asset != new_asset {
                let key = pair_key(h.asset, new_asset);
                let corr = match matrix.correlations.get(key as u128) {
                    Some(c) => *c,
                    None => 0,
                };
                assert(corr_lookup(m, hs[(i + 1) - 1].asset, new_asset) != i128::MIN);
                let magnitude = if corr < 0 { -corr } else { corr };
                if magnitude > HIGH_CORR_THRESHOLD {
                    high_corr_count = high_corr_count + 1;
                    let price = match risk.get_asset_price(h.asset) {
                        Some(p) => p,
                        None => h.position.entry_price,
                    };
                    assert(in_i128(exposure_scan(hs, m, prices, new_asset, i + 1).0));
                    assert(in_i128(hs[(i + 1) - 1].position.amount * valuation_price(hs[(i + 1) - 1], prices)));
                    high_corr_exposure = high_corr_exposure + div_toward_zero(h.position.amount * price, 100);
                }
            }
            i = i + 1;
        }
        let after_trade = total_portfolio_value + new_amount;
        let base = if after_trade > 0 { after_trade } else { 1 };
        let corr_pct = div_toward_zero(high_corr_exposure * 100, base);
        let risk_level = if corr_pct > 70 {
            RiskLevel::High
        } else if corr_pct > 50 {
            RiskLevel::Medium
        } else {
            RiskLevel::Low
        };
        Ok(CorrelationRisk {
            correlated_exposure_pct: corr_pct,
            highly_correlated_assets: high_corr_count,
            risk_level,
        })
    }

    /// Refuse a trade that would push correlated exposure or the number of
    /// correlated positions past the user's limits.
    pub fn enforce_correlation_limits(&mut self, risk: &RiskBook, user: AccountId, new_asset: u32, new_amount: i128, now: u64)
        -> (r: Result<(), AutoTradeError>)
        requires
            old(self).check_fits(risk, user, new_asset, new_amount, now),
        ensures
            final(self).limits@ == old(self).limits@,
            ({
                let hs = risk.holdings_spec(user);
                let ids = ids_for(hs, new_asset);
                let m = old(self).matrix_used(risk, user, ids, now);
                let cr = correlation_risk_spec(hs, m, risk.prices_spec(), holdings_value(hs, risk.prices_spec()), new_asset, new_amount as int);
                let lim = if old(self).limits@.contains_key(user as u128) { old(self).limits@[user as u128] } else { default_limits() };
                &&& final(self).matrices@[user as u128].correlations@ == m
                &&& r == (if cr.correlated_exposure_pct > lim.max_correlated_exposure_pct {
                        Err(AutoTradeError::CorrelationLimitExceeded)
                    } else if cr.highly_correlated_assets > lim.max_correlated_positions {
                        Err(AutoTradeError::TooManyCorrelatedPositions)
                    } else {
                        Ok(())
                    })
            }),
    {
        let limits = self.get_correlation_limits(user);
        let risk_assessment = self.check_portfolio_correlation(risk, user, new_asset, new_amount, now)?;
        if risk_assessment.correlated_exposure_pct > limits.max_correlated_exposure_pct as i128 {
            return Err(AutoTradeError::CorrelationLimitExceeded);
        }
        if risk_assessment.highly_correlated_assets > limits.max_correlated_positions {
            return Err(AutoTradeError::TooManyCorrelatedPositions);
        }
        Ok(())
    }
}


// ---------------------------------------------------------------------------
// Diversification suggestions
// ---------------------------------------------------------------------------

/// Sum of |correlation| between `cand` and the first `k` held assets.
pub open spec fn abs_corr_sum(held: Seq<u32>, m: Map<u128, i128>, cand: u32, k: int) -> int
    decreases k,
{
    if k <= 0 { 0 } else { abs_corr_sum(held, m, cand, k - 1) + abs(corr_lookup(m, held[k - 1], cand) as int) }
}

/// A candidate not held whose mean |correlation| with the holdings is
/// under 0.3 (or any candidate when nothing is held).
pub open spec fn diversifies(held: Seq<u32>, m: Map<u128, i128>, cand: u32) -> bool {
    !held.contains(cand) && (held.len() == 0 || abs_corr_sum(held, m, cand, held.len() as int) / (held.len() as int) < 3000)
}

/// The first (at most five) diversifying candidates among the first `k`.
pub open spec fn suggestions_upto(held: Seq<u32>, m: Map<u128, i128>, avail: Seq<u32>, k: int) -> Seq<u32>
    decreases k,
{
    if k <= 0 {
        Seq::empty()
    } else {
        let prev = suggestions_upto(held, m, avail, k - 1);
        if prev.len() < 5 && diversifies(held, m, avail[k - 1]) { prev.push(avail[k - 1]) } else { prev }
    }
}

pub open spec fn suggest_fits(held: Seq<u32>, m: Map<u128, i128>, avail: Seq<u32>) -> bool {
    forall|i: int, k: int| 0 <= i < avail.len() && 0 < k <= held.len() ==> {
        &&& corr_lookup(m, held[k - 1], #[trigger] avail[i]) != i128::MIN
        &&& in_i128(#[trigger] abs_corr_sum(held, m, avail[i], k))
    }
}

proof fn lemma_suggestions_len(held: Seq<u32>, m: Map<u128, i128>, avail: Seq<u32>, k: int)
    requires
        0 <= k,
    ensures
        suggestions_upto(held, m, avail, k).len() <= 5,
        suggestions_upto(held, m, avail, k).len() <= k,
    decreases k,
{
    if k > 0 {
        lemma_suggestions_len(held, m, avail, k - 1);
    }
}

proof fn lemma_suggestions_stable(held: Seq<u32>, m: Map<u128, i128>, avail: Seq<u32>, k: int, n: int)
    requires
        0 <= k <= n,
        suggestions_upto(held, m, avail, k).len() >= 5,
    ensures
        suggestions_upto(held, m, avail, n) == suggestions_upto(held, m, avail, k),
    decreases n - k,
{
    if k < n {
        lemma_suggestions_stable(held, m, avail, k, n - 1);
    }
}

impl CorrBook {
    pub open spec fn suggest_preconditions(&self, risk: &RiskBook, user: AccountId, available: Seq<u32>, now: u64) -> bool {
        let held = held_assets(risk.holdings_spec(user));
        let all = held + available;
        &&& (!self.cache_fresh(user, now) ==> matrix_fits(risk, all))
        &&& suggest_fits(held, self.matrix_used(risk, user, all, now), available)
    }

    /// Up to five of `available`, in order, that diversify the user's
    /// holdings; refreshes the cached matrix when stale.
    pub fn suggest_diversification(&mut self, risk: &RiskBook, user: AccountId, available: &Vec<u32>, now: u64) -> (r: Vec<u32>)
        requires
            old(self).suggest_preconditions(risk, user, available@, now),
        ensures
            final(self).limits@ == old(self).limits@,
            ({
                let held = held_assets(risk.holdings_spec(user));
                let m = old(self).matrix_used(risk, user, held + available@, now);
                &&& final(self).matrices@[user as u128].correlations@ == m
                &&& r@ == suggestions_upto(held, m, available@, available@.len() as int)
            }),
    {
        let holdings = risk.holdings(user);
        let ghost held = held_assets(holdings@);
        let mut all_assets: Vec<u32> = Vec::new();
        let mut i: usize = 0;
        while i < holdings.len()
            invariant
                held == held_assets(holdings@),
                i <= holdings@.len(),
                all_assets@ == held.take(i as int),
            decreases holdings@.len() - i,
        {
            all_assets.push(holdings[i].asset);
            i = i + 1;
            proof { assert(all_assets@ =~= held.take(i as int)); }
        }
        let mut held_ids: Vec<u32> = Vec::new();
        let mut t: usize = 0;
        while t < all_assets.len()
            invariant
                all_assets@ == held.take(holdings@.len() as int),
                t <= all_assets@.len(),
                held_ids@ == all_assets@.take(t as int),
            decreases all_assets@.len() - t,
        {
            held_ids.push(all_assets[t]);
            t = t + 1;
            proof { assert(held_ids@ =~= all_assets@.take(t as int)); }
        }
        proof {
            assert(held.take(holdings@.len() as int) =~= held);
            assert(held_ids@ =~= held);
        }
        let mut j: usize = 0;
        while j < available.len()
            invariant
                j <= available@.len(),
                all_assets@ == held + available@.take(j as int),
            decreases available@.len() - j,
        {
            all_assets.push(available[j]);
            j = j + 1;
            proof { assert(all_assets@ =~= held + available@.take(j as int)); }
        }
        proof { assert(available@.take(available@.len() as int) =~= available@); }
        self.get_or_build_matrix(risk, user, &all_assets, now);
        let matrix = self.matrices.get(user as u128).unwrap();
        let ghost m = matrix.correlations@;
        let mut suggestions: Vec<u32> = Vec::new();
        let mut c: usize = 0;
        while c < available.len()
            invariant_except_break
                suggestions@ == suggestions_upto(held, m, available@, c as int),
                suggestions@.len() < 5,
            invariant
                held == held_ids@,
                m == matrix.correlations@,
                suggest_fits(held, m, available@),
                c <= available@.len(),
            ensures
                suggestions@ == suggestions_upto(held, m, available@, available@.len() as int),
            decreases available@.len() - c,
        {
            let candidate = available[c];
            let mut is_held = false;
            let mut h: usize = 0;
            while h < held_ids.len()
                invariant
                    h <= held_ids@.len(),
                    is_held == (exists|q: int| 0 <= q < h && held_ids@[q] == candidate),
                decreases held_ids@.len() - h,
            {
                if held_ids[h] == candidate {
                    is_held = true;
                }
                h = h + 1;
            }
            assert(is_held == held.contains(candidate));
            proof { lemma_suggestions_len(held, m, available@, c + 1); }
            if !is_held {
                let mut avg_corr: i128 = 0;
                let mut count: i128 = 0;
                let mut q: usize = 0;
                while q < held_ids.len()
                    invariant
                        held == held_ids@,
                        m == matrix.correlations@,
                        suggest_fits(held, m, available@),
                        c < available@.len(),
                        candidate == available@[c as int],
                        q <= held.len(),
                        avg_corr == abs_corr_sum(held, m, candidate, q as int),
                        count == q,
                    decreases held.len() - q,
                {
                    let key = pair_key(held_ids[q], candidate);
                    let corr = match matrix.correlations.get(key as u128) {
                        Some(v) => *v,
                        None => 0,
                    };
                    assert(in_i128(abs_corr_sum(held, m, available@[c as int], q + 1)));
                    assert(corr_lookup(m, held[(q + 1) - 1], available@[c as int]) != i128::MIN);
                    let magnitude = if corr < 0 { -corr } else { corr };
                    avg_corr = avg_corr + magnitude;
                    count = count + 1;
                    q = q + 1;
                }
                if count == 0 || div_toward_zero(avg_corr, count) < LOW_CORR_THRESHOLD {
                    proof {
                        if count > 0 {
                            lemma_abs_corr_nonneg(held, m, candidate, count as int);
                        }
                    }
                    suggestions.push(candidate);
                    if suggestions.len() >= 5 {
                        proof { lemma_suggestions_stable(held, m, available@, c + 1, available@.len() as int); }
                        break;
                    }
                } else {
                    proof { lemma_abs_corr_nonneg(held, m, candidate, count as int); }
                }
            }
            c = c + 1;
        }
        suggestions
    }
}

proof fn lemma_abs_corr_nonneg(held: Seq<u32>, m: Map<u128, i128>, cand: u32, k: int)
    ensures
        abs_corr_sum(held, m, cand, k) >= 0,
    decreases k,
{
    if k > 0 {
        lemma_abs_corr_nonneg(held, m, cand, k - 1);
    }
}

}

verus! {

// ---------------------------------------------------------------------------
// Laws
// ---------------------------------------------------------------------------

proof fn lemma_cross_sum_swap(a: Seq<i128>, b: Seq<i128>, ma: int, mb: int, k: int)
    ensures
        cross_sum(a, b, ma, mb, k) == cross_sum(b, a, mb, ma, k),
    decreases k,
{
    if k > 0 {
        lemma_cross_sum_swap(a, b, ma, mb, k - 1);
        let x = a[k - 1] - ma;
        let y = b[k - 1] - mb;
        assert(x * y == y * x) by (nonlinear_arith);
    }
}

/// Correlation does not depend on the order of the two assets.
pub proof fn law_correlation_symmetric(risk: &RiskBook, a: u32, b: u32, window: u32)
    ensures
        correlation_spec(risk, a, b, window) == correlation_spec(risk, b, a, window),
{
    let pa = window_prices(risk, a, window);
    let pb = window_prices(risk, b, window);
    let n = min(pa.len() as int, pb.len() as int);
    let ma = tdiv(prefix_sum(pa, n), n);
    let mb = tdiv(prefix_sum(pb, n), n);
    lemma_cross_sum_swap(pa, pb, ma, mb, n);
    let x = cross_sum(pa, pa, ma, ma, n);
    let y = cross_sum(pb, pb, mb, mb, n);
    assert(x * y == y * x) by (nonlinear_arith);
}

/// Cauchy–Schwarz over the first `k` deviations from the means.
proof fn lemma_cross_sum_cauchy_schwarz(a: Seq<i128>, b: Seq<i128>, ma: int, mb: int, k: int)
    ensures
        cross_sum(a, a, ma, ma, k) >= 0,
        cross_sum(b, b, mb, mb, k) >= 0,
        cross_sum(a, b, ma, mb, k) * cross_sum(a, b, ma, mb, k) <= cross_sum(a, a, ma, ma, k) * cross_sum(b, b, mb, mb, k),
    decreases k,
{
    if k > 0 {
        lemma_cross_sum_cauchy_schwarz(a, b, ma, mb, k - 1);
        let sa = cross_sum(a, a, ma, ma, k - 1);
        let sb = cross_sum(b, b, mb, mb, k - 1);
        let c = cross_sum(a, b, ma, mb, k - 1);
        let x = a[k - 1] - ma;
        let y = b[k - 1] - mb;
        assert(x * x >= 0 && y * y >= 0) by (nonlinear_arith);
        let e = sa * (y * y) + sb * (x * x) - 2 * c * (x * y);
        if sa > 0 {
            assert(sa * e == sa * (sa * (y * y)) + sa * (sb * (x * x)) - 2 * (sa * (c * (x * y)))) by (nonlinear_arith)
                requires e == sa * (y * y) + sb * (x * x) - 2 * c * (x * y);
            assert((sa * y - c * x) * (sa * y - c * x) == (sa * y) * (sa * y) - 2 * ((sa * y) * (c * x)) + (c * x) * (c * x)) by (nonlinear_arith);
            assert((sa * y) * (sa * y) == sa * (sa * (y * y))) by (nonlinear_arith);
            assert((sa * y) * (c * x) == sa * (c * (x * y))) by (nonlinear_arith);
            assert((c * x) * (c * x) == (c * c) * (x * x)) by (nonlinear_arith);
            assert((sa * sb - c * c) * (x * x) == sa * (sb * (x * x)) - (c * c) * (x * x)) by (nonlinear_arith);
            assert(sa * e == (sa * y - c * x) * (sa * y - c * x) + (sa * sb - c * c) * (x * x));
            assert((sa * y - c * x) * (sa * y - c * x) >= 0) by (nonlinear_arith);
            assert((sa * sb - c * c) * (x * x) >= 0) by (nonlinear_arith)
                requires sa * sb - c * c >= 0, x * x >= 0;
            assert(e >= 0) by (nonlinear_arith)
                requires sa > 0, sa * e >= 0;
        } else {
            assert(c * c >= 0) by (nonlinear_arith);
            assert(sa * sb == 0) by (nonlinear_arith) requires sa == 0;
            assert(c == 0) by (nonlinear_arith) requires c * c <= 0;
            assert(e == sb * (x * x)) by (nonlinear_arith)
                requires sa == 0, c == 0, e == sa * (y * y) + sb * (x * x) - 2 * c * (x * y);
            assert(sb * (x * x) >= 0) by (nonlinear_arith) requires sb >= 0, x * x >= 0;
        }
        assert((c + x * y) * (c + x * y) == c * c + 2 * c * (x * y) + (x * y) * (x * y)) by (nonlinear_arith);
        assert((sa + x * x) * (sb + y * y) == sa * sb + sa * (y * y) + sb * (x * x) + (x * x) * (y * y)) by (nonlinear_arith);
        assert((x * y) * (x * y) == (x * x) * (y * y)) by (nonlinear_arith);
        assert((c + x * y) * (c + x * y) <= (sa + x * x) * (sb + y * y));
    }
}

/// Every non-negative integer has a floor square root.
proof fn lemma_floor_sqrt_exists(n: nat) -> (r: int)
    ensures
        r >= 0,
        r * r <= n,
        n < (r + 1) * (r + 1),
    decreases n,
{
    if n == 0 {
        0
    } else {
        let q = lemma_floor_sqrt_exists((n - 1) as nat);
        if (q + 1) * (q + 1) <= n {
            assert(n < (q + 2) * (q + 2)) by (nonlinear_arith)
                requires n - 1 < (q + 1) * (q + 1), q >= 0;
            q + 1
        } else {
            q
        }
    }
}

/// The correlation of two series lies between -10_000 and 10_000.
proof fn lemma_pearson_in_range(xs: Seq<i128>, ys: Seq<i128>)
    ensures
        -10_000 <= pearson(xs, ys) <= 10_000,
{
    let n = min(xs.len() as int, ys.len() as int);
    let ma = tdiv(prefix_sum(xs, n), n);
    let mb = tdiv(prefix_sum(ys, n), n);
    let sa = cross_sum(xs, xs, ma, ma, n);
    let sb = cross_sum(ys, ys, mb, mb, n);
    let c = cross_sum(xs, ys, ma, mb, n);
    let p = sa * sb;
    let den = isqrt_spec(p);
    if n >= 2 && den != 0 {
        lemma_cross_sum_cauchy_schwarz(xs, ys, ma, mb, n);
        assert(p >= 0) by (nonlinear_arith) requires sa >= 0, sb >= 0, p == sa * sb;
        if p == 0 {
            assert(sqrt_result(p, 0));
            lemma_sqrt_unique(p, den, 0);
        } else {
            let w = lemma_floor_sqrt_exists(p as nat);
            assert(sqrt_result(p, w));
            lemma_sqrt_unique(p, den, w);
            assert(den > 0);
            assert(-den <= c <= den) by (nonlinear_arith)
                requires c * c <= p, p < (den + 1) * (den + 1), den >= 0;
            let num = c * 10_000;
            assert(-(den * 10_000) <= num <= den * 10_000) by (nonlinear_arith)
                requires -den <= c <= den, num == c * 10_000;
            if num >= 0 {
                assert(num / den <= 10_000) by (nonlinear_arith)
                    requires 0 <= num <= den * 10_000, den > 0;
            } else {
                assert((-num) / den <= 10_000) by (nonlinear_arith)
                    requires 0 < -num <= den * 10_000, den > 0;
            }
        }
    }
}

/// A correlation is a value in basis points between -10_000 and 10_000.
pub proof fn law_correlation_in_range(risk: &RiskBook, a: u32, b: u32, window: u32)
    ensures
        -10_000 <= correlation_spec(risk, a, b, window) <= 10_000,
{
    lemma_pearson_in_range(window_prices(risk, a, window), window_prices(risk, b, window));
}

/// The asset pair a matrix key stands for, for ids below one million.
pub open spec fn key_pair(k: u128) -> (u32, u32) {
    ((k / 1_000_000) as u32, (k % 1_000_000) as u32)
}

/// Every write carries the correlation of the pair its key stands for.
pub open spec fn writes_carry_correlations(risk: &RiskBook, ws: Seq<(u64, i128)>) -> bool {
    forall|i: int| 0 <= i < ws.len() ==>
        (#[trigger] ws[i]).1 == correlation_spec(risk, key_pair(ws[i].0 as u128).0, key_pair(ws[i].0 as u128).1, 30) as i128
}

/// The writes include one to key `k`.
pub open spec fn writes_key(ws: Seq<(u64, i128)>, k: u64) -> bool {
    exists|i: int| 0 <= i < ws.len() && (#[trigger] ws[i]).0 == k
}

proof fn lemma_pair_key_decodes(a: u32, b: u32)
    requires
        a < 1_000_000,
        b < 1_000_000,
    ensures
        key_pair(pair_key_spec(a, b) as u128) == (a, b),
{
    assert(a * 1_000_000 + b < 0x1_0000_0000_0000_0000) by (nonlinear_arith)
        requires a < 1_000_000, b < 1_000_000;
    let k = a * 1_000_000 + b;
    assert(k / 1_000_000 == a && k % 1_000_000 == b) by (nonlinear_arith)
        requires k == a * 1_000_000 + b, 0 <= b < 1_000_000, a >= 0;
}

proof fn lemma_row_writes(risk: &RiskBook, assets: Seq<u32>, i: int, k: int)
    requires
        0 <= i,
        i + k < assets.len(),
        forall|j: int| 0 <= j < assets.len() ==> #[trigger] assets[j] < 1_000_000,
    ensures
        writes_carry_correlations(risk, row_writes(risk, assets, i, k)),
        forall|t: int| 1 <= t <= k ==> writes_key(row_writes(risk, assets, i, k), #[trigger] pair_key_spec(assets[i], assets[i + t]))
            && writes_key(row_writes(risk, assets, i, k), pair_key_spec(assets[i + t], assets[i])),
    decreases k,
{
    if k > 0 {
        lemma_row_writes(risk, assets, i, k - 1);
        let prev = row_writes(risk, assets, i, k - 1);
        let (a, b) = (assets[i], assets[i + k]);
        let c = correlation_spec(risk, a, b, 30) as i128;
        let x = (pair_key_spec(a, b), c);
        let y = (pair_key_spec(b, a), c);
        let ws = prev.push(x).push(y);
        assert(ws == row_writes(risk, assets, i, k));
        lemma_pair_key_decodes(a, b);
        lemma_pair_key_decodes(b, a);
        law_correlation_symmetric(risk, a, b, 30);
        assert forall|j: int| 0 <= j < ws.len() implies
            (#[trigger] ws[j]).1 == correlation_spec(risk, key_pair(ws[j].0 as u128).0, key_pair(ws[j].0 as u128).1, 30) as i128 by {
            if j < prev.len() {
                assert(ws[j] == prev[j]);
            }
        }
        assert forall|t: int| 1 <= t <= k implies writes_key(ws, #[trigger] pair_key_spec(assets[i], assets[i + t]))
            && writes_key(ws, pair_key_spec(assets[i + t], assets[i])) by {
            if t < k {
                let j1 = choose|j: int| 0 <= j < prev.len() && (#[trigger] prev[j]).0 == pair_key_spec(assets[i], assets[i + t]);
                let j2 = choose|j: int| 0 <= j < prev.len() && (#[trigger] prev[j]).0 == pair_key_spec(assets[i + t], assets[i]);
                assert(ws[j1] == prev[j1]);
                assert(ws[j2] == prev[j2]);
            } else {
                assert(ws[prev.len() as int] == x);
                assert(ws[prev.len() as int + 1] == y);
            }
        }
    }
}

proof fn lemma_matrix_writes(risk: &RiskBook, assets: Seq<u32>, m: int)
    requires
        0 <= m <= assets.len(),
        forall|j: int| 0 <= j < assets.len() ==> #[trigger] assets[j] < 1_000_000,
    ensures
        writes_carry_correlations(risk, matrix_writes(risk, assets, m)),
        forall|i: int, j: int| 0 <= i < m && i < j < assets.len() ==>
            writes_key(matrix_writes(risk, assets, m), #[trigger] pair_key_spec(assets[i], assets[j])),
    decreases m,
{
    if m > 0 {
        lemma_matrix_writes(risk, assets, m - 1);
        let prev = matrix_writes(risk, assets, m - 1);
        let row = row_writes(risk, assets, m - 1, assets.len() - m);
        lemma_row_writes(risk, assets, m - 1, assets.len() - m);
        let ws = prev + row;
        assert(ws == matrix_writes(risk, assets, m));
        assert forall|j: int| 0 <= j < ws.len() implies
            (#[trigger] ws[j]).1 == correlation_spec(risk, key_pair(ws[j].0 as u128).0, key_pair(ws[j].0 as u128).1, 30) as i128 by {
            if j < prev.len() {
                assert(ws[j] == prev[j]);
            } else {
                assert(ws[j] == row[j - prev.len()]);
            }
        }
        assert forall|i: int, j: int| 0 <= i < m && i < j < assets.len() implies
            writes_key(ws, #[trigger] pair_key_spec(assets[i], assets[j])) by {
            if i < m - 1 {
                let w = choose|w: int| 0 <= w < prev.len() && (#[trigger] prev[w]).0 == pair_key_spec(assets[i], assets[j]);
                assert(ws[w] == prev[w]);
            } else {
                let t = j - i;
                assert(pair_key_spec(assets[i], assets[j]) == pair_key_spec(assets[m - 1], assets[(m - 1) + t]));
                let w = choose|w: int| 0 <= w < row.len() && (#[trigger] row[w]).0 == pair_key_spec(assets[i], assets[j]);
                assert(ws[prev.len() + w] == row[w]);
            }
        }
    }
}

proof fn lemma_apply_writes(risk: &RiskBook, ws: Seq<(u64, i128)>)
    requires
        writes_carry_correlations(risk, ws),
    ensures
        forall|k: u128| #[trigger] apply_writes(ws).contains_key(k) ==>
            apply_writes(ws)[k] == correlation_spec(risk, key_pair(k).0, key_pair(k).1, 30) as i128,
        forall|k: u64| writes_key(ws, k) ==> #[trigger] apply_writes(ws).contains_key(k as u128),
    decreases ws.len(),
{
    if ws.len() > 0 {
        let prev = ws.drop_last();
        assert forall|i: int| 0 <= i < prev.len() implies
            (#[trigger] prev[i]).1 == correlation_spec(risk, key_pair(prev[i].0 as u128).0, key_pair(prev[i].0 as u128).1, 30) as i128 by {
            assert(prev[i] == ws[i]);
        }
        lemma_apply_writes(risk, prev);
        let last = ws[ws.len() - 1];
        assert(ws.last() == last);
        assert(apply_writes(ws) == apply_writes(prev).insert(last.0 as u128, last.1));
        assert forall|k: u128| #[trigger] apply_writes(ws).contains_key(k) implies
            apply_writes(ws)[k] == correlation_spec(risk, key_pair(k).0, key_pair(k).1, 30) as i128 by {
            if k != last.0 as u128 {
                assert(apply_writes(prev).contains_key(k));
            }
        }
        assert forall|k: u64| writes_key(ws, k) implies #[trigger] apply_writes(ws).contains_key(k as u128) by {
            let i = choose|i: int| 0 <= i < ws.len() && (#[trigger] ws[i]).0 == k;
            if i < ws.len() - 1 {
                assert(prev[i] == ws[i]);
                assert(writes_key(prev, k));
            }
        }
    }
}

/// The matrix built over assets with ids below one million holds both
/// orders of every pair of listed assets, each with the pair's
/// correlation, so it reads the same either way round.
pub proof fn law_matrix_symmetric(risk: &RiskBook, assets: Seq<u32>, i: int, j: int)
    requires
        forall|t: int| 0 <= t < assets.len() ==> #[trigger] assets[t] < 1_000_000,
        0 <= i < j < assets.len(),
    ensures
        ({
            let m = apply_writes(matrix_writes(risk, assets, assets.len() as int));
            let (a, b) = (assets[i], assets[j]);
            &&& m.contains_key(pair_key_spec(a, b) as u128)
            &&& m.contains_key(pair_key_spec(b, a) as u128)
            &&& m[pair_key_spec(a, b) as u128] == correlation_spec(risk, a, b, 30) as i128
            &&& m[pair_key_spec(a, b) as u128] == m[pair_key_spec(b, a) as u128]
        }),
{
    let n = assets.len() as int;
    let ws = matrix_writes(risk, assets, n);
    let (a, b) = (assets[i], assets[j]);
    lemma_matrix_writes(risk, assets, n);
    lemma_apply_writes(risk, ws);
    assert(writes_key(ws, pair_key_spec(assets[i], assets[j])));
    lemma_row_writes(risk, assets, i, n - 1 - i);
    // the reverse key is written in row i as well
    let row = row_writes(risk, assets, i, n - 1 - i);
    assert(pair_key_spec(assets[i + (j - i)], assets[i]) == pair_key_spec(b, a));
    assert(writes_key(row, pair_key_spec(b, a)));
    lemma_row_in_matrix(risk, assets, i, n, pair_key_spec(b, a));
    lemma_pair_key_decodes(a, b);
    lemma_pair_key_decodes(b, a);
    law_correlation_symmetric(risk, a, b, 30);
    let kab = pair_key_spec(a, b);
    let kba = pair_key_spec(b, a);
    let m = apply_writes(ws);
    assert(m.contains_key(kab as u128));
    assert(m.contains_key(kba as u128));
    assert(key_pair(kab as u128) == (a, b));
    assert(m[kab as u128] == correlation_spec(risk, a, b, 30) as i128);
    assert(m[kba as u128] == correlation_spec(risk, b, a, 30) as i128);
}

proof fn lemma_row_in_matrix(risk: &RiskBook, assets: Seq<u32>, i: int, m: int, k: u64)
    requires
        0 <= i < m <= assets.len(),
        writes_key(row_writes(risk, assets, i, assets.len() - 1 - i), k),
    ensures
        writes_key(matrix_writes(risk, assets, m), k),
    decreases m,
{
    let prev = matrix_writes(risk, assets, m - 1);
    let row = row_writes(risk, assets, m - 1, assets.len() - m);
    let ws = prev + row;
    assert(ws == matrix_writes(risk, assets, m));
    if i < m - 1 {
        lemma_row_in_matrix(risk, assets, i, m - 1, k);
        let w = choose|w: int| 0 <= w < prev.len() && (#[trigger] prev[w]).0 == k;
        assert(ws[w] == prev[w]);
    } else {
        let w = choose|w: int| 0 <= w < row.len() && (#[trigger] row[w]).0 == k;
        assert(ws[prev.len() + w] == row[w]);
    }
}

} // verus!
