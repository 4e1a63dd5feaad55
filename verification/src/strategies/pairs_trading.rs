//! Pairs trading: two correlated assets whose price ratio mean-reverts;
//! trade the ratio's z-score, long the cheap leg and short the rich one.
use vstd::prelude::*;
use crate::errors::AutoTradeError;
use crate::math::{abs, div_toward_zero, in_i128, is_floor_sqrt, min, sqrt_result, tdiv};
use crate::store::OrdMap;
use crate::strategies::stat_arb::{history_of, integer_sqrt, isqrt_spec, lemma_sqrt_unique, sum_to, StatArbBook};
use crate::AccountId;

verus! {

pub const PRECISION: i128 = 10_000;

#[derive(Clone, Copy, Debug, PartialEq, Eq, Structural)]
pub enum PositionStatus {
    Open,
    Closed,
}

#[derive(Clone, Copy, Debug, PartialEq, Eq, Structural)]
pub struct PairsPosition {
    pub position_id: u64,
    pub entry_ratio: i128,
    pub entry_z_score: i128,
    pub entry_time: u64,
    pub long_asset: u32,
    pub short_asset: u32,
    pub long_amount: i128,
    pub short_amount: i128,
    pub status: PositionStatus,
}

#[derive(Clone, Copy, Debug, PartialEq, Eq, Structural)]
pub struct PairsTradingStrategy {
    pub user: AccountId,
    pub asset_a: u32,
    pub asset_b: u32,
    pub lookback_period_days: u32,
    pub entry_z_score: i128,
    pub exit_z_score: i128,
    /// Share of the portfolio, out of 10000.
    pub position_size_pct: u32,
    pub active_position: Option<PairsPosition>,
    pub historical_ratio_mean: i128,
    pub historical_ratio_std_dev: i128,
    pub correlation_coefficient: i128,
}

#[derive(Clone, Copy, Debug, PartialEq, Eq, Structural)]
pub struct PairAnalysis {
    pub correlation: i128,
    pub ratio_mean: i128,
    pub ratio_std_dev: i128,
    pub current_ratio: i128,
    pub z_score: i128,
    pub is_cointegrated: bool,
}

#[derive(Clone, Copy, Debug, PartialEq, Eq, Structural)]
pub struct PairsSignal {
    pub long_asset: u32,
    pub short_asset: u32,
    pub entry_ratio: i128,
    pub z_score: i128,
    pub expected_ratio: i128,
    pub confidence: u32,
}

pub fn abs_i128(val: i128) -> (r: i128)
    requires
        val > i128::MIN,
    ensures
        r == abs(val as int),
{
    if val < 0 { -val } else { val }
}

// ---------------------------------------------------------------------------
// Confidence
// ---------------------------------------------------------------------------

/// Correlation (a tenth of its magnitude), z-score (a tenth, at most 3000)
/// and a 2000 bonus when cointegrated, capped at 10000.
pub open spec fn pairs_confidence_spec(a: PairAnalysis) -> int {
    let corr_score = (abs(a.correlation as int) as u32) / 10;
    let z_part = min(3000, (abs(a.z_score as int) / 10) as u32 as int);
    let bonus = if a.is_cointegrated { 2000int } else { 0int };
    min(10_000, corr_score + z_part + bonus)
}

pub fn calculate_pairs_confidence(analysis: &PairAnalysis) -> (r: Result<u32, AutoTradeError>)
    requires
        analysis.correlation > i128::MIN,
        analysis.z_score > i128::MIN,
    ensures
        r == Ok::<u32, AutoTradeError>(pairs_confidence_spec(*analysis) as u32),
{
    let corr_score = (abs_i128(analysis.correlation) as u32) / 10;
    let z = (abs_i128(analysis.z_score) / 10) as u32;
    let z_score_contribution: u32 = if z < 3000 { z } else { 3000 };
    let cointegration_bonus: u32 = if analysis.is_cointegrated { 2000 } else { 0 };
    let total = corr_score + z_score_contribution + cointegration_bonus;
    Ok(if total < 10000 { total } else { 10000 })
}

// ---------------------------------------------------------------------------
// Correlation of two price series
// ---------------------------------------------------------------------------

/// Sum over the first `k` indices of `tdiv(x_i * y_i, n)` with
/// `x_i = a[i] - ma`, `y_i = b[i] - mb`.
pub open spec fn co_moment(a: Seq<i128>, b: Seq<i128>, ma: int, mb: int, n: int, k: int) -> int
    decreases k,
{
    if k <= 0 { 0 } else { co_moment(a, b, ma, mb, n, k - 1) + tdiv((a[k - 1] - ma) * (b[k - 1] - mb), n) }
}

pub open spec fn corr_parts(a: Seq<i128>, b: Seq<i128>) -> (int, int, int, int, int) {
    let n = a.len() as int;
    let ma = tdiv(sum_to(a, n), n);
    let mb = tdiv(sum_to(b, n), n);
    (ma, mb, co_moment(a, b, ma, mb, n, n), co_moment(a, a, ma, ma, n, n), co_moment(b, b, mb, mb, n, n))
}

/// Pearson correlation in basis points over the first `a.len()` samples;
/// 0 when either series is flat.
pub open spec fn correlation_spec(a: Seq<i128>, b: Seq<i128>) -> int {
    let (ma, mb, num, sa, sb) = corr_parts(a, b);
    let den = isqrt_spec(sa * sb);
    if den == 0 { 0 } else { tdiv(num * 10_000, den) }
}

pub open spec fn correlation_fits(a: Seq<i128>, b: Seq<i128>) -> bool {
    let n = a.len() as int;
    let (ma, mb, num, sa, sb) = corr_parts(a, b);
    &&& n > 0
    &&& b.len() >= n
    &&& forall|k: int| 0 < k <= n ==> in_i128(#[trigger] sum_to(a, k)) && in_i128(sum_to(b, k))
    &&& forall|k: int| 0 < k <= n ==> {
        &&& in_i128(a[k - 1] - ma) && in_i128(b[k - 1] - mb)
        &&& in_i128((a[k - 1] - ma) * (b[k - 1] - mb))
        &&& in_i128((a[k - 1] - ma) * (a[k - 1] - ma))
        &&& in_i128((b[k - 1] - mb) * (b[k - 1] - mb))
        &&& in_i128(#[trigger] co_moment(a, b, ma, mb, n, k))
        &&& in_i128(co_moment(a, a, ma, ma, n, k))
        &&& in_i128(co_moment(b, b, mb, mb, n, k))
    }
    &&& in_i128(sa * sb)
    &&& sa * sb < i128::MAX
    &&& in_i128(num * 10_000)
}

pub fn calculate_correlation_from_prices(prices_a: &Vec<i128>, prices_b: &Vec<i128>) -> (r: Result<i128, AutoTradeError>)
    requires
        correlation_fits(prices_a@, prices_b@),
    ensures
        r == Ok::<i128, AutoTradeError>(correlation_spec(prices_a@, prices_b@) as i128),
{
    let ghost a = prices_a@;
    let ghost b = prices_b@;
    let len = prices_a.len();
    let mut sum_a: i128 = 0;
    let mut sum_b: i128 = 0;
    let mut i: usize = 0;
    while i < len
        invariant
            a == prices_a@,
            b == prices_b@,
            len == a.len(),
            correlation_fits(a, b),
            i <= len,
            sum_a == sum_to(a, i as int),
            sum_b == sum_to(b, i as int),
        decreases len - i,
    {
        assert(in_i128(sum_to(a, i + 1)) && in_i128(sum_to(b, i + 1)));
        sum_a = sum_a + prices_a[i];
        sum_b = sum_b + prices_b[i];
        i = i + 1;
    }
    let n = len as i128;
    let mean_a = div_toward_zero(sum_a, n);
    let mean_b = div_toward_zero(sum_b, n);
    let ghost parts = corr_parts(a, b);
    assert(mean_a == parts.0 && mean_b == parts.1);
    let mut numerator: i128 = 0;
    let mut sum_sq_a: i128 = 0;
    let mut sum_sq_b: i128 = 0;
    let mut j: usize = 0;
    while j < len
        invariant
            a == prices_a@,
            b == prices_b@,
            len == a.len(),
            n == len,
            correlation_fits(a, b),
            parts == corr_parts(a, b),
            mean_a == parts.0,
            mean_b == parts.1,
            j <= len,
            numerator == co_moment(a, b, mean_a as int, mean_b as int, n as int, j as int),
            sum_sq_a == co_moment(a, a, mean_a as int, mean_a as int, n as int, j as int),
            sum_sq_b == co_moment(b, b, mean_b as int, mean_b as int, n as int, j as int),
        decreases len - j,
    {
        assert(in_i128(co_moment(a, b, mean_a as int, mean_b as int, n as int, j + 1)));
        assert(in_i128(a[(j + 1) - 1] - mean_a) && in_i128(b[(j + 1) - 1] - mean_b));
        let diff_a = prices_a[j] - mean_a;
        let diff_b = prices_b[j] - mean_b;
        numerator = numerator + div_toward_zero(diff_a * diff_b, n);
        sum_sq_a = sum_sq_a + div_toward_zero(diff_a * diff_a, n);
        sum_sq_b = sum_sq_b + div_toward_zero(diff_b * diff_b, n);
        j = j + 1;
    }
    let denominator = integer_sqrt(sum_sq_a * sum_sq_b);
    proof {
        let prod = sum_sq_a * sum_sq_b;
        if prod > 0 {
            lemma_sqrt_unique(prod as int, isqrt_spec(prod as int), denominator as int);
        } else {
            assert(sqrt_result(prod as int, 0));
            lemma_sqrt_unique(prod as int, isqrt_spec(prod as int), 0);
        }
    }
    if denominator == 0 {
        return Ok(0);
    }
    Ok(div_toward_zero(numerator * PRECISION, denominator))
}


// ---------------------------------------------------------------------------
// The price ratio and its statistics
// ---------------------------------------------------------------------------

/// Count of mean crossings between consecutive ratios, over indices `1..k`.
pub open spec fn crossings_to(r: Seq<i128>, mean: int, k: int) -> int
    decreases k,
{
    if k <= 1 {
        0
    } else {
        crossings_to(r, mean, k - 1) + if (r[k - 2] > mean && r[k - 1] <= mean) || (r[k - 2] < mean && r[k - 1] >= mean) { 1int } else { 0int }
    }
}

proof fn lemma_crossings_mono(r: Seq<i128>, mean: int, j: int, k: int)
    requires
        j <= k,
    ensures
        0 <= crossings_to(r, mean, j) <= crossings_to(r, mean, k),
    decreases k - j,
{
    if j < k {
        lemma_crossings_mono(r, mean, j, k - 1);
    } else {
        lemma_crossings_nonneg(r, mean, j);
    }
}

proof fn lemma_crossings_nonneg(r: Seq<i128>, mean: int, k: int)
    ensures
        0 <= crossings_to(r, mean, k),
    decreases k,
{
    if k > 1 {
        lemma_crossings_nonneg(r, mean, k - 1);
    }
}

/// The crossing count, times 100, fits in `u32`.
pub open spec fn crossings_fit(r: Seq<i128>) -> bool {
    &&& r.len() <= u32::MAX
    &&& r.len() > 0 ==> crossings_to(r, tdiv(sum_to(r, r.len() as int), r.len() as int), r.len() as int) * 100 <= u32::MAX
}

/// The ratio crosses its mean in more than 20% of the periods.
pub open spec fn pairs_cointegration_spec(r: Seq<i128>) -> Result<bool, AutoTradeError> {
    if r.len() == 0 {
        Err(AutoTradeError::InsufficientPriceHistory)
    } else {
        let mean = tdiv(sum_to(r, r.len() as int), r.len() as int);
        Ok(crossings_to(r, mean, r.len() as int) * 100 / r.len() as int > 20)
    }
}

pub open spec fn ratio_sums_fit(r: Seq<i128>) -> bool {
    forall|k: int| 0 < k <= r.len() ==> in_i128(#[trigger] sum_to(r, k))
}

/// Mean-crossing test of the ratio series.
pub fn test_cointegration(ratios: &Vec<i128>) -> (r: Result<bool, AutoTradeError>)
    requires
        ratio_sums_fit(ratios@),
        crossings_fit(ratios@),
    ensures
        r == pairs_cointegration_spec(ratios@),
{
    if ratios.len() == 0 {
        return Err(AutoTradeError::InsufficientPriceHistory);
    }
    let mut sum: i128 = 0;
    let mut i: usize = 0;
    while i < ratios.len()
        invariant
            i <= ratios@.len(),
            ratio_sums_fit(ratios@),
            sum == sum_to(ratios@, i as int),
        decreases ratios@.len() - i,
    {
        assert(in_i128(sum_to(ratios@, i + 1)));
        sum = sum + ratios[i];
        i = i + 1;
    }
    let mean = div_toward_zero(sum, ratios.len() as i128);
    let mut crossings: u32 = 0;
    let mut j: usize = 1;
    while j < ratios.len()
        invariant
            1 <= j <= ratios@.len(),
            crossings_fit(ratios@),
            mean == tdiv(sum_to(ratios@, ratios@.len() as int), ratios@.len() as int),
            crossings == crossings_to(ratios@, mean as int, j as int),
        decreases ratios@.len() - j,
    {
        proof { lemma_crossings_mono(ratios@, mean as int, j + 1, ratios@.len() as int); }
        let prev = ratios[j - 1];
        let curr = ratios[j];
        if (prev > mean && curr <= mean) || (prev < mean && curr >= mean) {
            crossings = crossings + 1;
        }
        j = j + 1;
    }
    proof { lemma_crossings_mono(ratios@, mean as int, ratios@.len() as int, ratios@.len() as int); }
    let crossing_rate = (crossings * 100) / ratios.len() as u32;
    Ok(crossing_rate > 20)
}

/// Ratios `a[i] * 10000 / b[i]`, or an error at the first zero price of `b`.
pub open spec fn ratios_spec(a: Seq<i128>, b: Seq<i128>) -> Result<Seq<i128>, AutoTradeError> {
    if exists|i: int| 0 <= i < a.len() && #[trigger] b[i] == 0 {
        Err(AutoTradeError::InvalidPriceData)
    } else {
        Ok(Seq::new(a.len(), |i: int| ratio_at(a, b, i)))
    }
}

/// Sum over the first `k` ratios of `tdiv((r_i - mean)^2, n)`.
pub open spec fn ratio_var_to(r: Seq<i128>, mean: int, n: int, k: int) -> int
    decreases k,
{
    if k <= 0 { 0 } else { ratio_var_to(r, mean, n, k - 1) + tdiv((r[k - 1] - mean) * (r[k - 1] - mean), n) }
}

/// Statistics of the ratio series: (mean, standard deviation, current, z-score).
pub open spec fn ratio_stats(r: Seq<i128>) -> (int, int, int, int) {
    let n = r.len() as int;
    let mean = tdiv(sum_to(r, n), n);
    let sd = isqrt_spec(ratio_var_to(r, mean, n, n));
    let cur = r.last() as int;
    (mean, sd, cur, if sd > 0 { tdiv((cur - mean) * 10_000, sd) } else { 0 })
}

/// At least 30 prices of each asset, equally many.
pub open spec fn pair_history_spec(m: Map<u128, Vec<i128>>, a: u32, b: u32) -> Result<(Seq<i128>, Seq<i128>), AutoTradeError> {
    let pa = history_of(m, a);
    let pb = history_of(m, b);
    if pa.len() < 30 || pb.len() < 30 || pa.len() != pb.len() {
        Err(AutoTradeError::InsufficientPriceHistory)
    } else {
        Ok((pa, pb))
    }
}

pub open spec fn analysis_spec(m: Map<u128, Vec<i128>>, a: u32, b: u32) -> Result<PairAnalysis, AutoTradeError> {
    match pair_history_spec(m, a, b) {
        Err(e) => Err(e),
        Ok(ps) => match ratios_spec(ps.0, ps.1) {
            Err(e) => Err(e),
            Ok(r) => match pairs_cointegration_spec(r) {
                Err(e) => Err(e),
                Ok(coint) => {
                    let st = ratio_stats(r);
                    Ok(PairAnalysis {
                        correlation: correlation_spec(ps.0, ps.1) as i128,
                        ratio_mean: st.0 as i128,
                        ratio_std_dev: st.1 as i128,
                        current_ratio: st.2 as i128,
                        z_score: st.3 as i128,
                        is_cointegrated: coint,
                    })
                },
            },
        },
    }
}

pub open spec fn ratio_at(a: Seq<i128>, b: Seq<i128>, j: int) -> i128 {
    tdiv(a[j] * 10_000, b[j] as int) as i128
}

/// Sum of the first `k` ratios.
pub open spec fn ratio_prefix_sum(a: Seq<i128>, b: Seq<i128>, k: int) -> int
    decreases k,
{
    if k <= 0 { 0 } else { ratio_prefix_sum(a, b, k - 1) + ratio_at(a, b, k - 1) }
}

proof fn lemma_ratio_sum(a: Seq<i128>, b: Seq<i128>, n: int, k: int)
    requires
        0 <= k <= n,
    ensures
        sum_to(Seq::new(n as nat, |j: int| ratio_at(a, b, j)), k) == ratio_prefix_sum(a, b, k),
    decreases k,
{
    if k > 0 {
        lemma_ratio_sum(a, b, n, k - 1);
    }
}

pub open spec fn ratio_mean_spec(r: Seq<i128>) -> int {
    tdiv(sum_to(r, r.len() as int), r.len() as int)
}

pub open spec fn analysis_fits(m: Map<u128, Vec<i128>>, a: u32, b: u32) -> bool {
    pair_history_spec(m, a, b) matches Ok(ps) ==> {
        &&& correlation_fits(ps.0, ps.1)
        &&& forall|i: int| 0 <= i < ps.0.len() ==> in_i128(#[trigger] ps.0[i] * 10_000)
        &&& forall|k: int| 0 < k <= ps.0.len() && (forall|j: int| 0 <= j < k ==> ps.1[j] != 0)
            ==> in_i128(#[trigger] ratio_prefix_sum(ps.0, ps.1, k))
        &&& (ratios_spec(ps.0, ps.1) matches Ok(r) ==> {
            &&& ratio_sums_fit(r)
            &&& crossings_fit(r)
            &&& forall|k: int| 0 < k <= r.len() ==> in_i128(r[k - 1] - ratio_mean_spec(r))
                && in_i128((r[k - 1] - ratio_mean_spec(r)) * (r[k - 1] - ratio_mean_spec(r)))
                && in_i128(#[trigger] ratio_var_to(r, ratio_mean_spec(r), r.len() as int, k))
            &&& ratio_var_to(r, ratio_mean_spec(r), r.len() as int, r.len() as int) < i128::MAX
            &&& in_i128((r.last() - ratio_mean_spec(r)) * 10_000)
        })
    }
}

fn get_historical_prices(hist: &StatArbBook, asset_id: u32) -> (r: Result<Vec<i128>, AutoTradeError>)
    ensures
        match r {
            Ok(v) => v@ == history_of(hist.price_history@, asset_id) && v@.len() >= 30,
            Err(e) => e == AutoTradeError::InsufficientPriceHistory && history_of(hist.price_history@, asset_id).len() < 30,
        },
{
    let history = hist.get_price_history(asset_id);
    if history.len() < 30 {
        return Err(AutoTradeError::InsufficientPriceHistory);
    }
    Ok(history)
}

/// Correlation, ratio statistics and cointegration of two assets' stored
/// price histories.
pub fn analyze_asset_pair(hist: &StatArbBook, asset_a: u32, asset_b: u32, lookback_days: u32) -> (r: Result<PairAnalysis, AutoTradeError>)
    requires
        analysis_fits(hist.price_history@, asset_a, asset_b),
    ensures
        r == analysis_spec(hist.price_history@, asset_a, asset_b),
{
    let _lookback_seconds = lookback_days as u64 * 86400;
    let prices_a = get_historical_prices(hist, asset_a)?;
    let prices_b = get_historical_prices(hist, asset_b)?;
    if prices_a.len() != prices_b.len() || prices_a.len() < 30 {
        return Err(AutoTradeError::InsufficientPriceHistory);
    }
    let ghost pa = prices_a@;
    let ghost pb = prices_b@;
    let ghost m = hist.price_history@;
    let correlation = calculate_correlation_from_prices(&prices_a, &prices_b)?;
    let mut ratios: Vec<i128> = Vec::new();
    let mut ratio_sum: i128 = 0;
    let mut i: usize = 0;
    while i < prices_a.len()
        invariant
            pa == prices_a@,
            pb == prices_b@,
            m == hist.price_history@,
            pa.len() == pb.len(),
            pa.len() >= 30,
            pair_history_spec(m, asset_a, asset_b) == Ok::<(Seq<i128>, Seq<i128>), AutoTradeError>((pa, pb)),
            analysis_fits(m, asset_a, asset_b),
            i <= pa.len(),
            forall|k: int| 0 <= k < i ==> #[trigger] pb[k] != 0,
            ratios@ == Seq::new(i as nat, |k: int| ratio_at(pa, pb, k)),
            ratio_sum == ratio_prefix_sum(pa, pb, i as int),
        decreases pa.len() - i,
    {
        let a = prices_a[i];
        let b = prices_b[i];
        if b == 0 {
            proof { assert(pb[i as int] == 0); }
            return Err(AutoTradeError::InvalidPriceData);
        }
        assert(in_i128(pa[i as int] * 10_000));
        let ratio = div_toward_zero(a * PRECISION, b);
        assert(forall|j: int| 0 <= j < i + 1 ==> pb[j] != 0);
        assert(in_i128(ratio_prefix_sum(pa, pb, i + 1)));
        ratios.push(ratio);
        ratio_sum = ratio_sum + ratio;
        i = i + 1;
        proof { assert(ratios@ =~= Seq::new(i as nat, |k: int| ratio_at(pa, pb, k))); }
    }
    let ghost r = ratios@;
    assert(!(exists|k: int| 0 <= k < pa.len() && #[trigger] pb[k] == 0));
    assert(ratios_spec(pa, pb) == Ok::<Seq<i128>, AutoTradeError>(r));
    proof { lemma_ratio_sum(pa, pb, pa.len() as int, pa.len() as int); }
    let n = ratios.len() as i128;
    let ratio_mean = div_toward_zero(ratio_sum, n);
    assert(ratio_mean == ratio_mean_spec(r));
    let mut variance_sum: i128 = 0;
    let mut j: usize = 0;
    while j < ratios.len()
        invariant
            r == ratios@,
            r.len() == pa.len(),
            n == r.len(),
            pa.len() >= 30,
            ratio_mean == tdiv(sum_to(r, n as int), n as int),
            ratios_spec(pa, pb) == Ok::<Seq<i128>, AutoTradeError>(r),
            pair_history_spec(m, asset_a, asset_b) == Ok::<(Seq<i128>, Seq<i128>), AutoTradeError>((pa, pb)),
            analysis_fits(m, asset_a, asset_b),
            j <= r.len(),
            ratio_mean == ratio_mean_spec(r),
            variance_sum == ratio_var_to(r, ratio_mean_spec(r), r.len() as int, j as int),
        decreases r.len() - j,
    {
        assert(in_i128(ratio_var_to(r, ratio_mean_spec(r), r.len() as int, j + 1)));
        assert(in_i128(r[(j + 1) - 1] - ratio_mean_spec(r)));
        let diff = ratios[j] - ratio_mean;
        variance_sum = variance_sum + div_toward_zero(diff * diff, n);
        j = j + 1;
    }
    let ratio_std_dev = integer_sqrt(variance_sum);
    proof {
        lemma_sqrt_unique(variance_sum as int, isqrt_spec(variance_sum as int), ratio_std_dev as int);
    }
    let current_ratio = ratios[ratios.len() - 1];
    let z_score = if ratio_std_dev > 0 {
        div_toward_zero((current_ratio - ratio_mean) * PRECISION, ratio_std_dev)
    } else {
        0
    };
    let is_cointegrated = test_cointegration(&ratios)?;
    Ok(PairAnalysis {
        correlation,
        ratio_mean,
        ratio_std_dev,
        current_ratio,
        z_score,
        is_cointegrated,
    })
}


// ---------------------------------------------------------------------------
// Returns and hedge ratio
// ---------------------------------------------------------------------------

/// Period returns in basis points; 0 where the previous price is not positive.
pub open spec fn returns_spec(p: Seq<i128>) -> Seq<i128> {
    Seq::new(if p.len() > 0 { (p.len() - 1) as nat } else { 0 }, |i: int|
        if p[i] > 0 { tdiv((p[i + 1] - p[i]) * 10_000, p[i] as int) as i128 } else { 0i128 })
}

pub open spec fn returns_fit(p: Seq<i128>) -> bool {
    forall|i: int| 0 <= i < p.len() - 1 ==> #[trigger] p[i] > 0 ==> in_i128(p[i + 1] - p[i]) && in_i128((p[i + 1] - p[i]) * 10_000)
}

pub fn calculate_returns(prices: &Vec<i128>) -> (r: Vec<i128>)
    requires
        returns_fit(prices@),
    ensures
        r@ == returns_spec(prices@),
{
    let mut period_returns: Vec<i128> = Vec::new();
    let mut i: usize = 1;
    while i < prices.len()
        invariant
            returns_fit(prices@),
            1 <= i <= if prices@.len() > 0 { prices@.len() } else { 1 },
            period_returns@ == returns_spec(prices@).take(i - 1),
        decreases prices@.len() - i,
    {
        let prev = prices[i - 1];
        let curr = prices[i];
        if prev > 0 {
            assert(prices@[(i - 1) as int] > 0);
            period_returns.push(div_toward_zero((curr - prev) * PRECISION, prev));
        } else {
            period_returns.push(0);
        }
        i = i + 1;
        proof { assert(period_returns@ =~= returns_spec(prices@).take(i - 1)); }
    }
    proof { assert(period_returns@ =~= returns_spec(prices@)); }
    period_returns
}

pub open spec fn mean_of(s: Seq<i128>) -> int {
    tdiv(sum_to(s, s.len() as int), s.len() as int)
}

/// OLS slope of the returns of `a` on those of `b`, scaled by 10000; 10000 when either
/// series has no returns or those of `b` have no variance.
pub open spec fn hedge_ratio_spec(ra: Seq<i128>, rb: Seq<i128>) -> int {
    let n = rb.len() as int;
    let cov = co_moment(ra, rb, mean_of(ra), mean_of(rb), n, n);
    let var_b = co_moment(rb, rb, mean_of(rb), mean_of(rb), n, n);
    if ra.len() == 0 || rb.len() == 0 || var_b == 0 { 10_000 } else { tdiv(cov * 10_000, var_b) }
}

pub open spec fn hedge_ratio_fits(ra: Seq<i128>, rb: Seq<i128>) -> bool {
    let n = rb.len() as int;
    ra.len() > 0 && rb.len() > 0 ==> {
        &&& ra.len() == rb.len()
        &&& forall|k: int| 0 < k <= n ==> in_i128(#[trigger] sum_to(ra, k)) && in_i128(sum_to(rb, k))
        &&& forall|k: int| 0 < k <= n ==> {
            &&& in_i128(ra[k - 1] - mean_of(ra)) && in_i128(rb[k - 1] - mean_of(rb))
            &&& in_i128((ra[k - 1] - mean_of(ra)) * (rb[k - 1] - mean_of(rb)))
            &&& in_i128((rb[k - 1] - mean_of(rb)) * (rb[k - 1] - mean_of(rb)))
            &&& in_i128(#[trigger] co_moment(ra, rb, mean_of(ra), mean_of(rb), n, k))
            &&& in_i128(co_moment(rb, rb, mean_of(rb), mean_of(rb), n, k))
        }
        &&& in_i128(co_moment(ra, rb, mean_of(ra), mean_of(rb), n, n) * 10_000)
    }
}

/// Hedge ratio of asset `a` against asset `b` from their stored prices.
pub fn calculate_optimal_hedge_ratio(hist: &StatArbBook, asset_a: u32, asset_b: u32, lookback_days: u32) -> (r: Result<i128, AutoTradeError>)
    requires
        returns_fit(history_of(hist.price_history@, asset_a)),
        returns_fit(history_of(hist.price_history@, asset_b)),
        hedge_ratio_fits(returns_spec(history_of(hist.price_history@, asset_a)), returns_spec(history_of(hist.price_history@, asset_b))),
    ensures
        history_of(hist.price_history@, asset_a).len() < 30 || history_of(hist.price_history@, asset_b).len() < 30
            ==> r == Err::<i128, AutoTradeError>(AutoTradeError::InsufficientPriceHistory),
        history_of(hist.price_history@, asset_a).len() >= 30 && history_of(hist.price_history@, asset_b).len() >= 30
            ==> r == Ok::<i128, AutoTradeError>(hedge_ratio_spec(returns_spec(history_of(hist.price_history@, asset_a)),
                returns_spec(history_of(hist.price_history@, asset_b))) as i128),
{
    let _lookback_seconds = lookback_days as u64 * 86400;
    let prices_a = get_historical_prices(hist, asset_a)?;
    let prices_b = get_historical_prices(hist, asset_b)?;
    let returns_a = calculate_returns(&prices_a);
    let returns_b = calculate_returns(&prices_b);
    if returns_a.len() == 0 || returns_b.len() == 0 {
        return Ok(PRECISION);
    }
    let ghost ra = returns_a@;
    let ghost rb = returns_b@;
    let len = returns_b.len();
    let mut sum_b: i128 = 0;
    let mut sum_a: i128 = 0;
    let mut i: usize = 0;
    while i < len
        invariant
            ra == returns_a@,
            rb == returns_b@,
            len == rb.len(),
            ra.len() > 0 && rb.len() > 0,
            hedge_ratio_fits(ra, rb),
            i <= len,
            sum_a == sum_to(ra, i as int),
            sum_b == sum_to(rb, i as int),
        decreases len - i,
    {
        assert(in_i128(sum_to(ra, i + 1)) && in_i128(sum_to(rb, i + 1)));
        sum_b = sum_b + returns_b[i];
        sum_a = sum_a + returns_a[i];
        i = i + 1;
    }
    let n = len as i128;
    let mean_b = div_toward_zero(sum_b, n);
    let mean_a = div_toward_zero(sum_a, n);
    assert(mean_a == mean_of(ra) && mean_b == mean_of(rb));
    let mut covariance_sum: i128 = 0;
    let mut variance_b_sum: i128 = 0;
    let mut j: usize = 0;
    while j < returns_a.len()
        invariant
            ra == returns_a@,
            rb == returns_b@,
            len == rb.len(),
            n == len,
            ra.len() == rb.len(),
            ra.len() > 0,
            hedge_ratio_fits(ra, rb),
            mean_a == mean_of(ra),
            mean_b == mean_of(rb),
            j <= ra.len(),
            covariance_sum == co_moment(ra, rb, mean_of(ra), mean_of(rb), n as int, j as int),
            variance_b_sum == co_moment(rb, rb, mean_of(rb), mean_of(rb), n as int, j as int),
        decreases ra.len() - j,
    {
        assert(in_i128(co_moment(ra, rb, mean_of(ra), mean_of(rb), n as int, j + 1)));
        assert(in_i128(ra[(j + 1) - 1] - mean_of(ra)) && in_i128(rb[(j + 1) - 1] - mean_of(rb)));
        let diff_a = returns_a[j] - mean_a;
        let diff_b = returns_b[j] - mean_b;
        covariance_sum = covariance_sum + div_toward_zero(diff_a * diff_b, n);
        variance_b_sum = variance_b_sum + div_toward_zero(diff_b * diff_b, n);
        j = j + 1;
    }
    if variance_b_sum == 0 {
        return Ok(PRECISION);
    }
    Ok(div_toward_zero(covariance_sum * PRECISION, variance_b_sum))
}


// ---------------------------------------------------------------------------
// Strategies and positions
// ---------------------------------------------------------------------------

/// Key of a user's strategy: the user in the high 64 bits, the id below.
pub open spec fn pairs_key(user: AccountId, strategy_id: u64) -> u128 {
    (user as int * 0x1_0000_0000_0000_0000 + strategy_id as int) as u128
}

fn key_of(user: AccountId, strategy_id: u64) -> (k: u128)
    ensures
        k == pairs_key(user, strategy_id),
{
    assert(user as int * 0x1_0000_0000_0000_0000 + strategy_id as int <= u128::MAX) by (nonlinear_arith)
        requires user <= u64::MAX, strategy_id <= u64::MAX;
    (user as u128) * 0x1_0000_0000_0000_0000 + strategy_id as u128
}

/// Strategies by user and id, and the id counters.
pub struct PairsBook {
    pub strategies: OrdMap<PairsTradingStrategy>,
    pub next_strategy_id: u64,
    pub next_position_id: u64,
}

impl PairsBook {
    pub fn new() -> (b: Self)
        ensures
            b.strategies@ == Map::<u128, PairsTradingStrategy>::empty(),
            b.next_strategy_id == 1,
            b.next_position_id == 1,
    {
        PairsBook { strategies: OrdMap::new(), next_strategy_id: 1, next_position_id: 1 }
    }

    /// Register a strategy; the entry threshold must exceed the exit one
    /// and the size be within (0, 10000].
    pub fn configure_pairs_strategy(
        &mut self,
        user: AccountId,
        asset_a: u32,
        asset_b: u32,
        lookback_period_days: u32,
        entry_z_score: i128,
        exit_z_score: i128,
        position_size_pct: u32,
    ) -> (r: Result<u64, AutoTradeError>)
        requires
            old(self).next_strategy_id < u64::MAX,
        ensures
            final(self).next_position_id == old(self).next_position_id,
            (lookback_period_days == 0 || entry_z_score <= exit_z_score || position_size_pct == 0 || position_size_pct > 10000) ==> {
                &&& r == Err::<u64, AutoTradeError>(AutoTradeError::InvalidPairsConfig)
                &&& final(self).strategies@ == old(self).strategies@
                &&& final(self).next_strategy_id == old(self).next_strategy_id
            },
            !(lookback_period_days == 0 || entry_z_score <= exit_z_score || position_size_pct == 0 || position_size_pct > 10000) ==> {
                let id = old(self).next_strategy_id;
                &&& r == Ok::<u64, AutoTradeError>(id)
                &&& final(self).next_strategy_id == id + 1
                &&& final(self).strategies@ == old(self).strategies@.insert(pairs_key(user, id), PairsTradingStrategy {
                        user,
                        asset_a,
                        asset_b,
                        lookback_period_days,
                        entry_z_score,
                        exit_z_score,
                        position_size_pct,
                        active_position: None,
                        historical_ratio_mean: 0,
                        historical_ratio_std_dev: 0,
                        correlation_coefficient: 0,
                    })
            },
    {
        if lookback_period_days == 0 || entry_z_score <= exit_z_score || position_size_pct == 0 || position_size_pct > 10000 {
            return Err(AutoTradeError::InvalidPairsConfig);
        }
        let strategy_id = self.next_strategy_id;
        self.next_strategy_id = self.next_strategy_id + 1;
        let strategy = PairsTradingStrategy {
            user,
            asset_a,
            asset_b,
            lookback_period_days,
            entry_z_score,
            exit_z_score,
            position_size_pct,
            active_position: None,
            historical_ratio_mean: 0,
            historical_ratio_std_dev: 0,
            correlation_coefficient: 0,
        };
        self.save_strategy(user, strategy_id, strategy);
        Ok(strategy_id)
    }

    pub fn get_pairs_trading_strategy(&self, user: AccountId, strategy_id: u64) -> (r: Result<PairsTradingStrategy, AutoTradeError>)
        ensures
            self.strategies@.contains_key(pairs_key(user, strategy_id))
                ==> r == Ok::<PairsTradingStrategy, AutoTradeError>(self.strategies@[pairs_key(user, strategy_id)]),
            !self.strategies@.contains_key(pairs_key(user, strategy_id))
                ==> r == Err::<PairsTradingStrategy, AutoTradeError>(AutoTradeError::PairsStrategyNotFound),
    {
        match self.strategies.get(key_of(user, strategy_id)) {
            Some(s) => Ok(*s),
            None => Err(AutoTradeError::PairsStrategyNotFound),
        }
    }

    pub fn save_strategy(&mut self, user: AccountId, strategy_id: u64, strategy: PairsTradingStrategy)
        ensures
            final(self).strategies@ == old(self).strategies@.insert(pairs_key(user, strategy_id), strategy),
            final(self).next_strategy_id == old(self).next_strategy_id,
            final(self).next_position_id == old(self).next_position_id,
    {
        let k = key_of(user, strategy_id);
        self.strategies.insert(k, strategy);
    }

    /// Refresh the strategy's ratio statistics and signal an entry when the
    /// pair is correlated, cointegrated and the ratio has moved far enough.
    pub fn check_pairs_trading_signal(&mut self, hist: &StatArbBook, user: AccountId, strategy_id: u64)
        -> (r: Result<Option<PairsSignal>, AutoTradeError>)
        requires
            ({
                let st = old(self).strategies@[pairs_key(user, strategy_id)];
                old(self).strategies@.contains_key(pairs_key(user, strategy_id)) ==> {
                    &&& analysis_fits(hist.price_history@, st.asset_a, st.asset_b)
                    &&& (analysis_spec(hist.price_history@, st.asset_a, st.asset_b) matches Ok(an) ==>
                        an.correlation > i128::MIN && an.z_score > i128::MIN)
                }
            }),
        ensures
            final(self).next_strategy_id == old(self).next_strategy_id,
            final(self).next_position_id == old(self).next_position_id,
            ({
                let k = pairs_key(user, strategy_id);
                let st = old(self).strategies@[k];
                let an = analysis_spec(hist.price_history@, st.asset_a, st.asset_b);
                if !old(self).strategies@.contains_key(k) {
                    r == Err::<Option<PairsSignal>, AutoTradeError>(AutoTradeError::PairsStrategyNotFound)
                        && final(self).strategies@ == old(self).strategies@
                } else if st.active_position is Some {
                    r == Ok::<Option<PairsSignal>, AutoTradeError>(None) && final(self).strategies@ == old(self).strategies@
                } else if an is Err {
                    r == Err::<Option<PairsSignal>, AutoTradeError>(an->Err_0) && final(self).strategies@ == old(self).strategies@
                } else {
                    let a = an->Ok_0;
                    &&& final(self).strategies@ == old(self).strategies@.insert(k, PairsTradingStrategy {
                            historical_ratio_mean: a.ratio_mean,
                            historical_ratio_std_dev: a.ratio_std_dev,
                            correlation_coefficient: a.correlation,
                            ..st
                        })
                    &&& if abs(a.correlation as int) <= 7000 {
                        r == Err::<Option<PairsSignal>, AutoTradeError>(AutoTradeError::InsufficientCorrelation)
                    } else if !a.is_cointegrated {
                        r == Err::<Option<PairsSignal>, AutoTradeError>(AutoTradeError::PairNotCointegrated)
                    } else if abs(a.z_score as int) >= st.entry_z_score {
                        r == Ok::<Option<PairsSignal>, AutoTradeError>(Some(PairsSignal {
                            long_asset: if a.z_score > 0 { st.asset_b } else { st.asset_a },
                            short_asset: if a.z_score > 0 { st.asset_a } else { st.asset_b },
                            entry_ratio: a.current_ratio,
                            z_score: a.z_score,
                            expected_ratio: a.ratio_mean,
                            confidence: pairs_confidence_spec(a) as u32,
                        }))
                    } else {
                        r == Ok::<Option<PairsSignal>, AutoTradeError>(None)
                    }
                }
            }),
    {
        let mut strategy = self.get_pairs_trading_strategy(user, strategy_id)?;
        if strategy.active_position.is_some() {
            return Ok(None);
        }
        let analysis = analyze_asset_pair(hist, strategy.asset_a, strategy.asset_b, strategy.lookback_period_days)?;
        strategy.historical_ratio_mean = analysis.ratio_mean;
        strategy.historical_ratio_std_dev = analysis.ratio_std_dev;
        strategy.correlation_coefficient = analysis.correlation;
        self.save_strategy(user, strategy_id, strategy);
        if abs_i128(analysis.correlation) <= 7000 {
            return Err(AutoTradeError::InsufficientCorrelation);
        }
        if !analysis.is_cointegrated {
            return Err(AutoTradeError::PairNotCointegrated);
        }
        if abs_i128(analysis.z_score) >= strategy.entry_z_score {
            let confidence = calculate_pairs_confidence(&analysis)?;
            let signal = if analysis.z_score > 0 {
                PairsSignal {
                    long_asset: strategy.asset_b,
                    short_asset: strategy.asset_a,
                    entry_ratio: analysis.current_ratio,
                    z_score: analysis.z_score,
                    expected_ratio: analysis.ratio_mean,
                    confidence,
                }
            } else {
                PairsSignal {
                    long_asset: strategy.asset_a,
                    short_asset: strategy.asset_b,
                    entry_ratio: analysis.current_ratio,
                    z_score: analysis.z_score,
                    expected_ratio: analysis.ratio_mean,
                    confidence,
                }
            };
            Ok(Some(signal))
        } else {
            Ok(None)
        }
    }

    /// Open both legs, each half the strategy's share of the portfolio.
    pub fn execute_pairs_trade(&mut self, user: AccountId, strategy_id: u64, signal: PairsSignal, portfolio_value: i128, now: u64)
        -> (r: Result<u64, AutoTradeError>)
        requires
            old(self).next_position_id < u64::MAX,
            old(self).strategies@.contains_key(pairs_key(user, strategy_id)) ==>
                in_i128(portfolio_value * old(self).strategies@[pairs_key(user, strategy_id)].position_size_pct),
        ensures
            final(self).next_strategy_id == old(self).next_strategy_id,
            ({
                let k = pairs_key(user, strategy_id);
                let st = old(self).strategies@[k];
                let total = tdiv(portfolio_value * st.position_size_pct, 10_000);
                if !old(self).strategies@.contains_key(k) {
                    r == Err::<u64, AutoTradeError>(AutoTradeError::PairsStrategyNotFound)
                        && final(self).strategies@ == old(self).strategies@ && final(self).next_position_id == old(self).next_position_id
                } else if st.active_position is Some {
                    r == Err::<u64, AutoTradeError>(AutoTradeError::PairsPositionError)
                        && final(self).strategies@ == old(self).strategies@ && final(self).next_position_id == old(self).next_position_id
                } else {
                    &&& r == Ok::<u64, AutoTradeError>(old(self).next_position_id)
                    &&& final(self).next_position_id == old(self).next_position_id + 1
                    &&& final(self).strategies@ == old(self).strategies@.insert(k, PairsTradingStrategy {
                            active_position: Some(PairsPosition {
                                position_id: old(self).next_position_id,
                                entry_ratio: signal.entry_ratio,
                                entry_z_score: signal.z_score,
                                entry_time: now,
                                long_asset: signal.long_asset,
                                short_asset: signal.short_asset,
                                long_amount: tdiv(total, 2) as i128,
                                short_amount: tdiv(total, 2) as i128,
                                status: PositionStatus::Open,
                            }),
                            ..st
                        })
                }
            }),
    {
        let mut strategy = self.get_pairs_trading_strategy(user, strategy_id)?;
        if strategy.active_position.is_some() {
            return Err(AutoTradeError::PairsPositionError);
        }
        let total_position_value = div_toward_zero(portfolio_value * strategy.position_size_pct as i128, 10000);
        let long_amount = div_toward_zero(total_position_value, 2);
        let short_amount = div_toward_zero(total_position_value, 2);
        let position_id = self.next_position_id;
        self.next_position_id = self.next_position_id + 1;
        strategy.active_position = Some(PairsPosition {
            position_id,
            entry_ratio: signal.entry_ratio,
            entry_z_score: signal.z_score,
            entry_time: now,
            long_asset: signal.long_asset,
            short_asset: signal.short_asset,
            long_amount,
            short_amount,
            status: PositionStatus::Open,
        });
        self.save_strategy(user, strategy_id, strategy);
        Ok(position_id)
    }

    /// Close the position when the ratio's z-score has come back within the
    /// exit band or doubled against it.
    pub fn check_pairs_exit(&mut self, hist: &StatArbBook, user: AccountId, strategy_id: u64) -> (r: Result<Option<u64>, AutoTradeError>)
        requires
            ({
                let st = old(self).strategies@[pairs_key(user, strategy_id)];
                old(self).strategies@.contains_key(pairs_key(user, strategy_id)) && st.active_position is Some ==> {
                    &&& analysis_fits(hist.price_history@, st.asset_a, st.asset_b)
                    &&& st.active_position->Some_0.entry_z_score > i128::MIN
                    &&& in_i128(abs(st.active_position->Some_0.entry_z_score as int) * 2)
                    &&& (analysis_spec(hist.price_history@, st.asset_a, st.asset_b) matches Ok(an) ==> an.z_score > i128::MIN)
                }
            }),
        ensures
            final(self).next_strategy_id == old(self).next_strategy_id,
            final(self).next_position_id == old(self).next_position_id,
            ({
                let k = pairs_key(user, strategy_id);
                let st = old(self).strategies@[k];
                let p = st.active_position->Some_0;
                let an = analysis_spec(hist.price_history@, st.asset_a, st.asset_b);
                let z = abs(an->Ok_0.z_score as int);
                if !old(self).strategies@.contains_key(k) {
                    r == Err::<Option<u64>, AutoTradeError>(AutoTradeError::PairsStrategyNotFound) && final(self).strategies@ == old(self).strategies@
                } else if st.active_position is None {
                    r == Err::<Option<u64>, AutoTradeError>(AutoTradeError::PairsPositionError) && final(self).strategies@ == old(self).strategies@
                } else if an is Err {
                    r == Err::<Option<u64>, AutoTradeError>(an->Err_0) && final(self).strategies@ == old(self).strategies@
                } else if z <= st.exit_z_score || z >= abs(p.entry_z_score as int) * 2 {
                    r == Ok::<Option<u64>, AutoTradeError>(Some(p.position_id))
                        && final(self).strategies@ == old(self).strategies@.insert(k, PairsTradingStrategy { active_position: None, ..st })
                } else {
                    r == Ok::<Option<u64>, AutoTradeError>(None) && final(self).strategies@ == old(self).strategies@
                }
            }),
    {
        let mut strategy = self.get_pairs_trading_strategy(user, strategy_id)?;
        let position = match strategy.active_position {
            Some(pos) => pos,
            None => return Err(AutoTradeError::PairsPositionError),
        };
        let analysis = analyze_asset_pair(hist, strategy.asset_a, strategy.asset_b, strategy.lookback_period_days)?;
        let z = abs_i128(analysis.z_score);
        let should_exit = z <= strategy.exit_z_score || z >= abs_i128(position.entry_z_score) * 2;
        if should_exit {
            strategy.active_position = None;
            self.save_strategy(user, strategy_id, strategy);
            return Ok(Some(position.position_id));
        }
        Ok(None)
    }
}

}
