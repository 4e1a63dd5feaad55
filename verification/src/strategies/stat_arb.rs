//! Statistical arbitrage over a basket of three to five assets: OLS hedge
//! ratios, a residual spread, a Dickey-Fuller style stationarity check and
//! z-score entries and exits, all in fixed point with scale 10000.
use vstd::prelude::*;
use crate::errors::AutoTradeError;
use crate::store::OrdMap;
use crate::risk::RiskBook;
use crate::AccountId;
use crate::math::{abs, clamp, div_toward_zero, in_i128, is_floor_sqrt, newton_isqrt, sqrt_result, tdiv};

verus! {

pub const STAT_ARB_SCALE: i128 = 10_000;
pub const MIN_BASKET_SIZE: usize = 3;
pub const MAX_BASKET_SIZE: usize = 5;
pub const MIN_HISTORY_POINTS: usize = 4;
pub const MAX_HISTORY_POINTS: usize = 120;
pub const MAX_RESIDUAL_HISTORY: usize = 32;
/// ln 2 in fixed point.
pub const LN_2_FIXED: i128 = 6_931;

#[derive(Clone, Copy, Debug, PartialEq, Eq, Structural)]
pub enum StatArbSignalAction {
    Hold,
    EnterLong,
    EnterShort,
    Exit,
}

#[derive(Clone, Copy, Debug, PartialEq, Eq, Structural)]
pub enum StatArbExitReason {
    NoExit,
    Converged,
    StopLoss,
    CointegrationBreakdown,
}

#[derive(Clone, Copy, Debug, PartialEq, Eq, Structural)]
pub struct StatArbAssetPosition {
    pub asset_id: u32,
    pub quantity: i128,
    pub entry_price: i128,
    pub target_weight: i128,
    pub is_long: bool,
}

#[derive(Clone, Copy, Debug, PartialEq, Eq, Structural)]
pub struct StatArbSignal {
    pub action: StatArbSignalAction,
    pub residual: i128,
    pub z_score: i128,
    pub half_life: u32,
    pub is_cointegrated: bool,
}

#[derive(Clone, Copy, Debug, PartialEq, Eq, Structural)]
pub struct StatArbExitCheck {
    pub should_exit: bool,
    pub reason: StatArbExitReason,
    pub residual: i128,
    pub z_score: i128,
    pub is_cointegrated: bool,
}

// ---------------------------------------------------------------------------
// Sums
// ---------------------------------------------------------------------------

/// Sum of the first `k` values.
pub open spec fn sum_to(s: Seq<i128>, k: int) -> int
    decreases k,
{
    if k <= 0 { 0 } else { sum_to(s, k - 1) + s[k - 1] }
}

/// Sum of `x[i] * y[i]` over the first `k` indices.
pub open spec fn dot_to(x: Seq<i128>, y: Seq<i128>, k: int) -> int
    decreases k,
{
    if k <= 0 { 0 } else { dot_to(x, y, k - 1) + x[k - 1] * y[k - 1] }
}

/// Sum of `(s[i] - c)^2` over the first `k` indices.
pub open spec fn sq_dev_to(s: Seq<i128>, c: int, k: int) -> int
    decreases k,
{
    if k <= 0 { 0 } else { sq_dev_to(s, c, k - 1) + (s[k - 1] - c) * (s[k - 1] - c) }
}

// ---------------------------------------------------------------------------
// Half-life
// ---------------------------------------------------------------------------

/// Periods for a deviation to halve: ln 2 over the reversion speed, 0 when
/// the series does not revert.
pub open spec fn halflife_spec(adf_statistic: int) -> int {
    if adf_statistic >= 0 { 0 } else { 69_310_000int / abs(adf_statistic) }
}

pub fn calculate_mean_reversion_halflife(adf_statistic: i128) -> (r: u32)
    requires
        adf_statistic > i128::MIN,
    ensures
        r == halflife_spec(adf_statistic as int),
{
    if adf_statistic >= 0 {
        return 0;
    }
    let speed = if adf_statistic < 0 { -adf_statistic } else { adf_statistic };
    if speed == 0 {
        return 0;
    }
    assert(69_310_000int / (speed as int) <= 69_310_000) by (nonlinear_arith)
        requires speed >= 1;
    (LN_2_FIXED * STAT_ARB_SCALE / speed) as u32
}

// ---------------------------------------------------------------------------
// Regression
// ---------------------------------------------------------------------------

/// The sums of the least-squares fit of `y` on `x` stay within `i128`.
pub open spec fn regression_fits(y: Seq<i128>, x: Seq<i128>) -> bool {
    let n = y.len() as int;
    let sy = sum_to(y, n);
    let sx = sum_to(x, n);
    let sxy = dot_to(x, y, n);
    let sx2 = dot_to(x, x, n);
    &&& forall|k: int| 0 < k <= n ==> {
        &&& in_i128(#[trigger] sum_to(y, k))
        &&& in_i128(sum_to(x, k))
        &&& in_i128(dot_to(x, y, k))
        &&& in_i128(dot_to(x, x, k))
        &&& in_i128(x[k - 1] * y[k - 1])
        &&& in_i128(x[k - 1] * x[k - 1])
    }
    &&& in_i128(n * sxy)
    &&& in_i128(sx * sy)
    &&& in_i128(n * sxy - sx * sy)
    &&& in_i128(n * sx2)
    &&& in_i128(sx * sx)
    &&& in_i128(n * sx2 - sx * sx)
    &&& in_i128((n * sxy - sx * sy) * 10_000)
}

/// Least-squares slope of `y` on `x`, scaled by 10000.
pub open spec fn regression_spec(y: Seq<i128>, x: Seq<i128>) -> Result<i128, AutoTradeError> {
    let n = y.len() as int;
    let num = n * dot_to(x, y, n) - sum_to(x, n) * sum_to(y, n);
    let den = n * dot_to(x, x, n) - sum_to(x, n) * sum_to(x, n);
    if y.len() != x.len() || y.len() < 4 {
        Err(AutoTradeError::InsufficientPriceHistory)
    } else if den == 0 {
        Err(AutoTradeError::InvalidPriceData)
    } else {
        Ok(tdiv(num * 10_000, den) as i128)
    }
}

pub fn calculate_regression_coefficient(dependent: &Vec<i128>, independent: &Vec<i128>) -> (r: Result<i128, AutoTradeError>)
    requires
        dependent@.len() == independent@.len() && dependent@.len() >= 4 ==> regression_fits(dependent@, independent@),
    ensures
        r == regression_spec(dependent@, independent@),
{
    if dependent.len() != independent.len() || dependent.len() < MIN_HISTORY_POINTS {
        return Err(AutoTradeError::InsufficientPriceHistory);
    }
    let ghost y = dependent@;
    let ghost x = independent@;
    let len = dependent.len();
    let mut sum_y: i128 = 0;
    let mut sum_x: i128 = 0;
    let mut sum_xy: i128 = 0;
    let mut sum_x2: i128 = 0;
    let mut i: usize = 0;
    while i < len
        invariant
            len == y.len(),
            len == x.len(),
            y == dependent@,
            x == independent@,
            regression_fits(y, x),
            i <= len,
            sum_y == sum_to(y, i as int),
            sum_x == sum_to(x, i as int),
            sum_xy == dot_to(x, y, i as int),
            sum_x2 == dot_to(x, x, i as int),
        decreases len - i,
    {
        let yv = dependent[i];
        let xv = independent[i];
        assert(in_i128(sum_to(y, i + 1)));
        sum_y = sum_y + yv;
        sum_x = sum_x + xv;
        sum_xy = sum_xy + xv * yv;
        sum_x2 = sum_x2 + xv * xv;
        i = i + 1;
    }
    let n = len as i128;
    let numerator = n * sum_xy - (sum_x * sum_y);
    let denominator = n * sum_x2 - (sum_x * sum_x);
    if denominator == 0 {
        return Err(AutoTradeError::InvalidPriceData);
    }
    Ok(div_toward_zero(numerator * STAT_ARB_SCALE, denominator))
}

// ---------------------------------------------------------------------------
// Hedge ratios and the residual spread
// ---------------------------------------------------------------------------

/// The values of each series.
pub open spec fn views(h: Seq<Vec<i128>>) -> Seq<Seq<i128>> {
    h.map_values(|v: Vec<i128>| v@)
}

/// The regression of series 0 on each later series fits in range and its
/// slope can be negated.
pub open spec fn hedge_fits(h: Seq<Seq<i128>>) -> bool {
    forall|i: int| 1 <= i < h.len() ==> {
        &&& (h[0].len() == (#[trigger] h[i]).len() && h[0].len() >= 4 ==> regression_fits(h[0], h[i]))
        &&& (regression_spec(h[0], h[i]) matches Ok(b) ==> b != i128::MIN)
    }
}

/// Ratios for the first `k` series: 10000 for the base, minus the slope of
/// the base on each later series; the first failing regression's error.
pub open spec fn hedge_prefix(h: Seq<Seq<i128>>, k: int) -> Result<Seq<i128>, AutoTradeError>
    decreases k,
{
    if k <= 1 {
        Ok(seq![10_000i128])
    } else {
        match hedge_prefix(h, k - 1) {
            Err(e) => Err(e),
            Ok(p) => match regression_spec(h[0], h[k - 1]) {
                Err(e) => Err(e),
                Ok(b) => Ok(p.push((-b) as i128)),
            },
        }
    }
}

pub open spec fn hedge_spec(h: Seq<Seq<i128>>) -> Result<Seq<i128>, AutoTradeError> {
    if h.len() < 3 { Err(AutoTradeError::InvalidBasketSize) } else { hedge_prefix(h, h.len() as int) }
}

proof fn lemma_hedge_err_sticks(h: Seq<Seq<i128>>, k: int, n: int)
    requires
        1 <= k <= n,
        hedge_prefix(h, k) is Err,
    ensures
        hedge_prefix(h, n) == hedge_prefix(h, k),
    decreases n - k,
{
    if k < n {
        lemma_hedge_err_sticks(h, k, n - 1);
    }
}

pub fn calculate_hedge_ratios_ols(aligned_histories: &Vec<Vec<i128>>) -> (r: Result<Vec<i128>, AutoTradeError>)
    requires
        hedge_fits(views(aligned_histories@)),
    ensures
        match r {
            Ok(v) => hedge_spec(views(aligned_histories@)) == Ok::<Seq<i128>, AutoTradeError>(v@),
            Err(e) => hedge_spec(views(aligned_histories@)) == Err::<Seq<i128>, AutoTradeError>(e),
        },
{
    if aligned_histories.len() < MIN_BASKET_SIZE {
        return Err(AutoTradeError::InvalidBasketSize);
    }
    let base_series = &aligned_histories[0];
    let mut hedge_ratios: Vec<i128> = Vec::new();
    hedge_ratios.push(STAT_ARB_SCALE);
    assert(hedge_ratios@ =~= seq![10_000i128]);
    let mut i: usize = 1;
    while i < aligned_histories.len()
        invariant
            1 <= i <= views(aligned_histories@).len(),
            views(aligned_histories@).len() >= 3,
            base_series@ == views(aligned_histories@)[0],
            hedge_fits(views(aligned_histories@)),
            hedge_prefix(views(aligned_histories@), i as int) == Ok::<Seq<i128>, AutoTradeError>(hedge_ratios@),
        decreases views(aligned_histories@).len() - i,
    {
        let series = &aligned_histories[i];
        assert(series@ == views(aligned_histories@)[i as int]);
        assert(base_series@.len() == series@.len() && base_series@.len() >= 4 ==> regression_fits(base_series@, series@));
        let beta = match calculate_regression_coefficient(base_series, series) {
            Ok(b) => b,
            Err(e) => {
                proof { lemma_hedge_err_sticks(views(aligned_histories@), i + 1, views(aligned_histories@).len() as int); }
                return Err(e);
            },
        };
        hedge_ratios.push(-beta);
        i = i + 1;
    }
    Ok(hedge_ratios)
}

/// Residual at one sample: the hedge-weighted sum of the assets' prices
/// over the first `k` assets.
pub open spec fn residual_at(h: Seq<Seq<i128>>, ratios: Seq<i128>, s: int, k: int) -> int
    decreases k,
{
    if k <= 0 { 0 } else { residual_at(h, ratios, s, k - 1) + tdiv(h[k - 1][s] * ratios[k - 1], 10_000) }
}

/// Every series is at least as long as the first.
pub open spec fn aligned(h: Seq<Seq<i128>>) -> bool {
    forall|a: int| 0 <= a < h.len() ==> (#[trigger] h[a]).len() >= h[0].len()
}

pub open spec fn portfolio_fits(h: Seq<Seq<i128>>, ratios: Seq<i128>) -> bool {
    forall|s: int, k: int| 0 <= s < h[0].len() && 0 < k <= h.len() ==> {
        &&& in_i128(#[trigger] residual_at(h, ratios, s, k))
        &&& in_i128(h[k - 1][s] * ratios[k - 1])
    }
}

pub open spec fn portfolio_spec(h: Seq<Seq<i128>>, ratios: Seq<i128>) -> Result<Seq<i128>, AutoTradeError> {
    if h.len() != ratios.len() || h.len() == 0 {
        Err(AutoTradeError::InvalidPriceData)
    } else if !aligned(h) {
        Err(AutoTradeError::InsufficientPriceHistory)
    } else {
        Ok(Seq::new(h[0].len(), |s: int| residual_at(h, ratios, s, h.len() as int) as i128))
    }
}

/// The spread series: at each sample, the hedge-weighted sum of prices.
pub fn construct_portfolio(aligned_histories: &Vec<Vec<i128>>, hedge_ratios: &Vec<i128>) -> (r: Result<Vec<i128>, AutoTradeError>)
    requires
        views(aligned_histories@).len() == hedge_ratios@.len() && views(aligned_histories@).len() > 0 && aligned(views(aligned_histories@))
            ==> portfolio_fits(views(aligned_histories@), hedge_ratios@),
    ensures
        match r {
            Ok(v) => portfolio_spec(views(aligned_histories@), hedge_ratios@) == Ok::<Seq<i128>, AutoTradeError>(v@),
            Err(e) => portfolio_spec(views(aligned_histories@), hedge_ratios@) == Err::<Seq<i128>, AutoTradeError>(e),
        },
{
    if aligned_histories.len() != hedge_ratios.len() || aligned_histories.len() == 0 {
        return Err(AutoTradeError::InvalidPriceData);
    }
    let ghost h = views(aligned_histories@);
    let sample_len = aligned_histories[0].len();
    let n_assets = aligned_histories.len();
    let mut a: usize = 0;
    while a < n_assets
        invariant
            n_assets == h.len(),
            n_assets == hedge_ratios@.len(),
            n_assets > 0,
            h == views(aligned_histories@),
            sample_len == h[0].len(),
            a <= n_assets,
            forall|b: int| 0 <= b < a ==> (#[trigger] h[b]).len() >= sample_len,
        decreases n_assets - a,
    {
        if aligned_histories[a].len() < sample_len {
            assert(!aligned(h)) by {
                assert(h[a as int].len() < h[0].len());
            }
            return Err(AutoTradeError::InsufficientPriceHistory);
        }
        a = a + 1;
    }
    assert(aligned(h));
    let mut residuals: Vec<i128> = Vec::new();
    let mut s: usize = 0;
    while s < sample_len
        invariant
            n_assets == h.len(),
            n_assets == hedge_ratios@.len(),
            n_assets > 0,
            h == views(aligned_histories@),
            sample_len == h[0].len(),
            aligned(h),
            portfolio_fits(h, hedge_ratios@),
            s <= sample_len,
            residuals@.len() == s,
            forall|t: int| 0 <= t < s ==> residuals@[t] == residual_at(h, hedge_ratios@, t, n_assets as int),
        decreases sample_len - s,
    {
        let mut residual: i128 = 0;
        let mut k: usize = 0;
        while k < n_assets
            invariant
                n_assets == h.len(),
                n_assets == hedge_ratios@.len(),
                h == views(aligned_histories@),
                sample_len == h[0].len(),
                aligned(h),
                portfolio_fits(h, hedge_ratios@),
                s < sample_len,
                k <= n_assets,
                residual == residual_at(h, hedge_ratios@, s as int, k as int),
            decreases n_assets - k,
        {
            assert(h[k as int].len() >= sample_len);
            let price = aligned_histories[k][s];
            let ratio = hedge_ratios[k];
            assert(in_i128(residual_at(h, hedge_ratios@, s as int, k + 1)));
            residual = residual + price * ratio / STAT_ARB_SCALE;
            k = k + 1;
        }
        residuals.push(residual);
        s = s + 1;
    }
    assert(residuals@ =~= Seq::new(h[0].len(), |t: int| residual_at(h, hedge_ratios@, t, h.len() as int) as i128));
    Ok(residuals)
}


// ---------------------------------------------------------------------------
// Stationarity of the spread
// ---------------------------------------------------------------------------

pub open spec fn lagged_of(r: Seq<i128>) -> Seq<i128> {
    r.subrange(0, r.len() - 1)
}

pub open spec fn diffs_of(r: Seq<i128>) -> Seq<i128> {
    Seq::new((r.len() - 1) as nat, |i: int| (r[i + 1] - r[i]) as i128)
}

pub open spec fn adf_fits(r: Seq<i128>) -> bool {
    r.len() >= 4 ==> {
        &&& forall|i: int| 0 <= i < r.len() - 1 ==> in_i128(#[trigger] r[i + 1] - r[i])
        &&& regression_fits(diffs_of(r), lagged_of(r))
    }
}

/// Slope of the period-on-period change on the previous level (negative
/// for a mean-reverting spread), and a p-value proxy `10000 - |slope|`
/// clamped to [0, 10000].
pub open spec fn adf_spec(r: Seq<i128>) -> Result<(i128, i128), AutoTradeError> {
    if r.len() < 4 {
        Err(AutoTradeError::InsufficientPriceHistory)
    } else {
        match regression_spec(diffs_of(r), lagged_of(r)) {
            Err(e) => Err(e),
            Ok(phi) => Ok((phi, clamp(10_000 - abs(phi as int), 0, 10_000) as i128)),
        }
    }
}

pub fn augmented_dickey_fuller_test(residuals: &Vec<i128>) -> (r: Result<(i128, i128), AutoTradeError>)
    requires
        adf_fits(residuals@),
    ensures
        r == adf_spec(residuals@),
{
    if residuals.len() < MIN_HISTORY_POINTS {
        return Err(AutoTradeError::InsufficientPriceHistory);
    }
    let ghost rs = residuals@;
    let mut lagged: Vec<i128> = Vec::new();
    let mut diffs: Vec<i128> = Vec::new();
    let mut i: usize = 1;
    while i < residuals.len()
        invariant
            rs == residuals@,
            rs.len() >= 4,
            adf_fits(rs),
            1 <= i <= rs.len(),
            lagged@ == rs.subrange(0, i - 1),
            diffs@ == diffs_of(rs).subrange(0, i - 1),
        decreases rs.len() - i,
    {
        let previous = residuals[i - 1];
        let current = residuals[i];
        assert(in_i128(rs[(i - 1) + 1] - rs[i - 1]));
        lagged.push(previous);
        diffs.push(current - previous);
        proof {
            assert(lagged@ =~= rs.subrange(0, i as int));
            assert(diffs@ =~= diffs_of(rs).subrange(0, i as int));
        }
        i = i + 1;
    }
    assert(lagged@ =~= lagged_of(rs));
    assert(diffs@ =~= diffs_of(rs));
    let phi = calculate_regression_coefficient(&diffs, &lagged)?;
    let magnitude: i128 = if phi < 0 {
        if phi == i128::MIN { i128::MAX } else { -phi }
    } else {
        phi
    };
    proof {
        if phi == i128::MIN {
            assert(clamp(10_000 - abs(phi as int), 0, 10_000) == 0);
            assert(clamp(10_000 - i128::MAX, 0, 10_000) == 0);
        }
    }
    let raw = STAT_ARB_SCALE - magnitude;
    let p_value = if raw < 0 { 0 } else if raw > STAT_ARB_SCALE { STAT_ARB_SCALE } else { raw };
    Ok((phi, p_value))
}

// ---------------------------------------------------------------------------
// Moments and z-score
// ---------------------------------------------------------------------------

pub open spec fn sums_fit(s: Seq<i128>) -> bool {
    forall|k: int| 0 < k <= s.len() ==> in_i128(#[trigger] sum_to(s, k))
}

pub open spec fn mean_spec(s: Seq<i128>) -> Result<i128, AutoTradeError> {
    if s.len() == 0 { Err(AutoTradeError::InsufficientPriceHistory) } else { Ok(tdiv(sum_to(s, s.len() as int), s.len() as int) as i128) }
}

pub fn mean(series: &Vec<i128>) -> (r: Result<i128, AutoTradeError>)
    requires
        sums_fit(series@),
    ensures
        r == mean_spec(series@),
{
    if series.len() == 0 {
        return Err(AutoTradeError::InsufficientPriceHistory);
    }
    let mut total: i128 = 0;
    let mut i: usize = 0;
    while i < series.len()
        invariant
            i <= series@.len(),
            sums_fit(series@),
            total == sum_to(series@, i as int),
        decreases series@.len() - i,
    {
        assert(in_i128(sum_to(series@, i + 1)));
        total = total + series[i];
        i = i + 1;
    }
    Ok(div_toward_zero(total, series.len() as i128))
}

pub open spec fn sq_devs_fit(s: Seq<i128>, c: int) -> bool {
    forall|k: int| 0 < k <= s.len() ==> in_i128(#[trigger] sq_dev_to(s, c, k)) && in_i128(s[k - 1] - c)
        && in_i128((s[k - 1] - c) * (s[k - 1] - c))
}

/// Population variance about `avg`, rounded down.
pub open spec fn variance_spec(s: Seq<i128>, avg: int) -> Result<i128, AutoTradeError> {
    if s.len() < 2 { Err(AutoTradeError::InsufficientPriceHistory) } else { Ok((sq_dev_to(s, avg, s.len() as int) / (s.len() as int)) as i128) }
}

proof fn lemma_sq_dev_nonneg(s: Seq<i128>, c: int, k: int)
    ensures
        sq_dev_to(s, c, k) >= 0,
    decreases k,
{
    if k > 0 {
        lemma_sq_dev_nonneg(s, c, k - 1);
        let d = s[k - 1] - c;
        assert(d * d >= 0) by (nonlinear_arith);
    }
}

pub fn variance(series: &Vec<i128>, avg: i128) -> (r: Result<i128, AutoTradeError>)
    requires
        sq_devs_fit(series@, avg as int),
    ensures
        r == variance_spec(series@, avg as int),
{
    if series.len() < 2 {
        return Err(AutoTradeError::InsufficientPriceHistory);
    }
    let mut total: i128 = 0;
    let mut i: usize = 0;
    while i < series.len()
        invariant
            i <= series@.len(),
            sq_devs_fit(series@, avg as int),
            total == sq_dev_to(series@, avg as int, i as int),
        decreases series@.len() - i,
    {
        assert(in_i128(sq_dev_to(series@, avg as int, i + 1)));
        let diff = series[i] - avg;
        total = total + diff * diff;
        i = i + 1;
    }
    proof { lemma_sq_dev_nonneg(series@, avg as int, series@.len() as int); }
    Ok(total / series.len() as i128)
}

/// Integer square root; 0 for non-positive values.
pub fn integer_sqrt(value: i128) -> (r: i128)
    requires
        value < i128::MAX,
    ensures
        sqrt_result(value as int, r as int),
{
    if value <= 0 {
        return 0;
    }
    newton_isqrt(value)
}

pub open spec fn isqrt_spec(n: int) -> int {
    choose|r: int| sqrt_result(n, r)
}

pub proof fn lemma_sqrt_unique(n: int, r1: int, r2: int)
    requires
        sqrt_result(n, r1),
        sqrt_result(n, r2),
    ensures
        r1 == r2,
{
    if n > 0 && r1 != r2 {
        if r1 < r2 {
            assert((r1 + 1) * (r1 + 1) <= r2 * r2) by (nonlinear_arith) requires 0 <= r1 < r2;
        } else {
            assert((r2 + 1) * (r2 + 1) <= r1 * r1) by (nonlinear_arith) requires 0 <= r2 < r1;
        }
    }
}

pub open spec fn z_fits(s: Seq<i128>, latest: int) -> bool {
    &&& sums_fit(s)
    &&& (mean_spec(s) matches Ok(m) ==> {
        &&& sq_devs_fit(s, m as int)
        &&& in_i128(latest - m)
        &&& in_i128((latest - m) * 10_000)
        &&& (variance_spec(s, m as int) matches Ok(v) ==> v < i128::MAX)
    })
}

/// Distance of `latest` from the mean in standard deviations, scaled by 10000.
pub open spec fn z_spec(s: Seq<i128>, latest: int) -> Result<i128, AutoTradeError> {
    match mean_spec(s) {
        Err(e) => Err(e),
        Ok(m) => match variance_spec(s, m as int) {
            Err(e) => Err(e),
            Ok(v) => if v == 0 {
                Err(AutoTradeError::InvalidPriceData)
            } else {
                Ok(tdiv((latest - m) * 10_000, isqrt_spec(v as int)) as i128)
            },
        },
    }
}

pub fn calculate_z_score(residuals: &Vec<i128>, latest_residual: i128) -> (r: Result<i128, AutoTradeError>)
    requires
        z_fits(residuals@, latest_residual as int),
    ensures
        r == z_spec(residuals@, latest_residual as int),
{
    let avg = mean(residuals)?;
    let var = variance(residuals, avg)?;
    if var == 0 {
        return Err(AutoTradeError::InvalidPriceData);
    }
    let std_dev = integer_sqrt(var);
    proof {
        lemma_sq_dev_nonneg(residuals@, avg as int, residuals@.len() as int);
        assert(var > 0) by (nonlinear_arith)
            requires var >= 0, var != 0;
        let c = isqrt_spec(var as int);
        assert(sqrt_result(var as int, std_dev as int));
        lemma_sqrt_unique(var as int, c, std_dev as int);
        assert(std_dev >= 1) by (nonlinear_arith)
            requires is_floor_sqrt(var as int, std_dev as int), var >= 1;
    }
    if std_dev == 0 {
        return Err(AutoTradeError::InvalidPriceData);
    }
    Ok(div_toward_zero((latest_residual - avg) * STAT_ARB_SCALE, std_dev))
}

// ---------------------------------------------------------------------------
// Input checks
// ---------------------------------------------------------------------------

/// Three to five distinct, nonzero assets.
pub open spec fn basket_ok(b: Seq<u32>) -> bool {
    &&& 3 <= b.len() <= 5
    &&& forall|i: int| 0 <= i < b.len() ==> #[trigger] b[i] != 0
    &&& forall|i: int, j: int| 0 <= i < j < b.len() ==> #[trigger] b[i] != #[trigger] b[j]
}

pub fn validate_asset_basket(asset_basket: &Vec<u32>) -> (r: Result<(), AutoTradeError>)
    ensures
        r == (if basket_ok(asset_basket@) { Ok::<(), AutoTradeError>(()) } else { Err(AutoTradeError::InvalidBasketSize) }),
{
    let len = asset_basket.len();
    if len < MIN_BASKET_SIZE || len > MAX_BASKET_SIZE {
        return Err(AutoTradeError::InvalidBasketSize);
    }
    let mut i: usize = 0;
    while i < len
        invariant
            len == asset_basket@.len(),
            3 <= len <= 5,
            i <= len,
            forall|a: int| 0 <= a < i ==> #[trigger] asset_basket@[a] != 0,
            forall|a: int, c: int| 0 <= a < i && a < c < len ==> #[trigger] asset_basket@[a] != #[trigger] asset_basket@[c],
        decreases len - i,
    {
        let asset = asset_basket[i];
        if asset == 0 {
            return Err(AutoTradeError::InvalidBasketSize);
        }
        let mut j: usize = i + 1;
        while j < len
            invariant
                len == asset_basket@.len(),
                i < len,
                i < j <= len,
                asset == asset_basket@[i as int],
                forall|c: int| i < c < j ==> #[trigger] asset_basket@[c] != asset,
            decreases len - j,
        {
            if asset == asset_basket[j] {
                return Err(AutoTradeError::InvalidBasketSize);
            }
            j = j + 1;
        }
        i = i + 1;
    }
    Ok(())
}

pub open spec fn history_check(p: Seq<i128>) -> Result<(), AutoTradeError> {
    if p.len() < 4 || p.len() > 120 {
        Err(AutoTradeError::InsufficientPriceHistory)
    } else if exists|i: int| 0 <= i < p.len() && #[trigger] p[i] <= 0 {
        Err(AutoTradeError::InvalidPriceData)
    } else {
        Ok(())
    }
}

/// Four to 120 prices, all positive.
pub fn validate_price_history(prices: &Vec<i128>) -> (r: Result<(), AutoTradeError>)
    ensures
        r == history_check(prices@),
{
    if prices.len() < MIN_HISTORY_POINTS || prices.len() > MAX_HISTORY_POINTS {
        return Err(AutoTradeError::InsufficientPriceHistory);
    }
    let mut i: usize = 0;
    while i < prices.len()
        invariant
            i <= prices@.len(),
            4 <= prices@.len() <= 120,
            forall|k: int| 0 <= k < i ==> #[trigger] prices@[k] > 0,
        decreases prices@.len() - i,
    {
        if prices[i] <= 0 {
            return Err(AutoTradeError::InvalidPriceData);
        }
        i = i + 1;
    }
    Ok(())
}

/// The last `target_len` values (all of them when fewer).
pub open spec fn tail_of(s: Seq<i128>, target_len: int) -> Seq<i128> {
    if s.len() > target_len { s.subrange(s.len() - target_len, s.len() as int) } else { s }
}

pub fn truncate_tail(series: &Vec<i128>, target_len: usize) -> (r: Vec<i128>)
    ensures
        r@ == tail_of(series@, target_len as int),
{
    let start = if series.len() > target_len { series.len() - target_len } else { 0 };
    let mut truncated: Vec<i128> = Vec::new();
    let mut i: usize = start;
    while i < series.len()
        invariant
            start <= i <= series@.len(),
            truncated@ == series@.subrange(start as int, i as int),
        decreases series@.len() - i,
    {
        truncated.push(series[i]);
        i = i + 1;
        proof { assert(truncated@ =~= series@.subrange(start as int, i as int)); }
    }
    proof { assert(series@.subrange(0, series@.len() as int) =~= series@); }
    truncated
}


// ---------------------------------------------------------------------------
// Strategies, portfolios and stored price histories
// ---------------------------------------------------------------------------

pub struct StatArbStrategy {
    pub user: AccountId,
    pub asset_basket: Vec<u32>,
    pub lookback_period_days: u32,
    pub cointegration_threshold: i128,
    pub hedge_ratios: Vec<i128>,
    pub entry_z_score: i128,
    pub exit_z_score: i128,
    pub rebalance_frequency_hours: u32,
    pub active_portfolio: bool,
    pub residual_history: Vec<i128>,
}

pub struct StatArbPortfolio {
    pub portfolio_id: u64,
    pub asset_positions: Vec<StatArbAssetPosition>,
    pub entry_residual: i128,
    pub entry_z_score: i128,
    pub entry_time: u64,
    pub last_rebalanced_at: u64,
    pub total_value: i128,
    pub is_long_residual: bool,
}

pub struct CointegrationTest {
    pub asset_group: Vec<u32>,
    pub is_cointegrated: bool,
    pub adf_statistic: i128,
    pub p_value: i128,
    pub hedge_ratios: Vec<i128>,
    pub half_life: u32,
}

/// Strategies and open portfolios by user, and price histories by asset.
pub struct StatArbBook {
    pub strategies: OrdMap<StatArbStrategy>,
    pub portfolios: OrdMap<StatArbPortfolio>,
    pub price_history: OrdMap<Vec<i128>>,
    pub next_portfolio_id: u64,
}

/// The stored history of an asset, empty when none.
pub open spec fn history_of(m: Map<u128, Vec<i128>>, asset: u32) -> Seq<i128> {
    if m.contains_key(asset as u128) { m[asset as u128]@ } else { Seq::empty() }
}

/// Shortest history among the first `k` assets (from `u32::MAX`), or the
/// first history that fails its check.
pub open spec fn shortest_history(m: Map<u128, Vec<i128>>, basket: Seq<u32>, k: int) -> Result<int, AutoTradeError>
    decreases k,
{
    if k <= 0 {
        Ok(u32::MAX as int)
    } else {
        match shortest_history(m, basket, k - 1) {
            Err(e) => Err(e),
            Ok(sh) => match history_check(history_of(m, basket[k - 1])) {
                Err(e) => Err(e),
                Ok(_) => Ok(crate::math::min(sh, history_of(m, basket[k - 1]).len() as int)),
            },
        }
    }
}

/// Every asset's history cut to a common length: the shortest history,
/// capped at the lookback (at least 4 points).
pub open spec fn aligned_spec(m: Map<u128, Vec<i128>>, basket: Seq<u32>, lookback: u32) -> Result<Seq<Seq<i128>>, AutoTradeError> {
    match shortest_history(m, basket, basket.len() as int) {
        Err(e) => Err(e),
        Ok(sh) => {
            let target = crate::math::min(sh, crate::math::max(lookback as int, 4));
            if target < 4 {
                Err(AutoTradeError::InsufficientPriceHistory)
            } else {
                Ok(Seq::new(basket.len(), |i: int| tail_of(history_of(m, basket[i]), target)))
            }
        },
    }
}

proof fn lemma_shortest_err_sticks(m: Map<u128, Vec<i128>>, basket: Seq<u32>, k: int, n: int)
    requires
        0 <= k <= n,
        shortest_history(m, basket, k) is Err,
    ensures
        shortest_history(m, basket, n) == shortest_history(m, basket, k),
    decreases n - k,
{
    if k < n {
        lemma_shortest_err_sticks(m, basket, k, n - 1);
    }
}

proof fn lemma_shortest_bounds(m: Map<u128, Vec<i128>>, basket: Seq<u32>, k: int)
    requires
        0 <= k <= basket.len(),
        shortest_history(m, basket, k) matches Ok(_),
    ensures
        shortest_history(m, basket, k) matches Ok(sh) && 0 <= sh <= u32::MAX
            && (k > 0 ==> sh >= 4),
    decreases k,
{
    if k > 0 {
        lemma_shortest_bounds(m, basket, k - 1);
    }
}

/// Outcome of the cointegration test: whether the basket is cointegrated,
/// the stationarity slope and p-value proxy, hedge ratios and half-life.
pub open spec fn cointegration_spec(m: Map<u128, Vec<i128>>, basket: Seq<u32>, lookback: u32, threshold: i128)
    -> Result<(bool, i128, i128, Seq<i128>, int), AutoTradeError>
{
    if !basket_ok(basket) {
        Err(AutoTradeError::InvalidBasketSize)
    } else {
        match aligned_spec(m, basket, lookback) {
            Err(e) => Err(e),
            Ok(h) => match hedge_spec(h) {
                Err(e) => Err(e),
                Ok(ratios) => match portfolio_spec(h, ratios) {
                    Err(e) => Err(e),
                    Ok(res) => match adf_spec(res) {
                        Err(e) => Err(e),
                        Ok(ap) => {
                            let half = halflife_spec(ap.0 as int);
                            Ok((ap.0 <= -threshold && half > 0, ap.0, ap.1, ratios, half))
                        },
                    },
                },
            },
        }
    }
}

/// The cointegration arithmetic stays within range for these inputs.
pub open spec fn cointegration_fits(m: Map<u128, Vec<i128>>, basket: Seq<u32>, lookback: u32, threshold: i128) -> bool {
    &&& threshold > i128::MIN
    &&& (aligned_spec(m, basket, lookback) matches Ok(h) ==> {
        &&& hedge_fits(h)
        &&& (hedge_spec(h) matches Ok(ratios) ==> {
            &&& (h.len() == ratios.len() && h.len() > 0 && aligned(h) ==> portfolio_fits(h, ratios))
            &&& (portfolio_spec(h, ratios) matches Ok(res) ==> {
                &&& adf_fits(res)
                &&& (adf_spec(res) matches Ok(ap) ==> ap.0 > i128::MIN)
            })
        })
    })
}

fn copy_series(v: &Vec<i128>) -> (r: Vec<i128>)
    ensures
        r@ == v@,
{
    let mut out: Vec<i128> = Vec::new();
    let mut i: usize = 0;
    while i < v.len()
        invariant
            i <= v@.len(),
            out@ == v@.take(i as int),
        decreases v@.len() - i,
    {
        out.push(v[i]);
        i = i + 1;
        proof { assert(out@ =~= v@.take(i as int)); }
    }
    proof { assert(v@.take(v@.len() as int) =~= v@); }
    out
}

fn copy_ids(v: &Vec<u32>) -> (r: Vec<u32>)
    ensures
        r@ == v@,
{
    let mut out: Vec<u32> = Vec::new();
    let mut i: usize = 0;
    while i < v.len()
        invariant
            i <= v@.len(),
            out@ == v@.take(i as int),
        decreases v@.len() - i,
    {
        out.push(v[i]);
        i = i + 1;
        proof { assert(out@ =~= v@.take(i as int)); }
    }
    proof { assert(v@.take(v@.len() as int) =~= v@); }
    out
}

impl StatArbBook {
    pub fn new() -> (b: Self)
        ensures
            b.strategies@ == Map::<u128, StatArbStrategy>::empty(),
            b.portfolios@ == Map::<u128, StatArbPortfolio>::empty(),
            b.price_history@ == Map::<u128, Vec<i128>>::empty(),
            b.next_portfolio_id == 1,
    {
        StatArbBook { strategies: OrdMap::new(), portfolios: OrdMap::new(), price_history: OrdMap::new(), next_portfolio_id: 1 }
    }

    /// Store a checked price history and publish its last price as the
    /// asset's latest price.
    pub fn set_price_history(&mut self, risk: &mut RiskBook, asset_id: u32, prices: Vec<i128>) -> (r: Result<(), AutoTradeError>)
        requires
            old(risk).wf(),
        ensures
            final(risk).wf(),
            r == history_check(prices@),
            final(self).strategies@ == old(self).strategies@,
            final(self).portfolios@ == old(self).portfolios@,
            final(self).next_portfolio_id == old(self).next_portfolio_id,
            r is Err ==> final(self).price_history@ == old(self).price_history@ && final(risk).prices_spec() == old(risk).prices_spec(),
            r is Ok ==> {
                &&& final(self).price_history@ == old(self).price_history@.insert(asset_id as u128, prices)
                &&& final(risk).prices_spec() == old(risk).prices_spec().insert(asset_id as u128, prices@.last())
            },
            forall|u: AccountId, a: u32| #[trigger] final(risk).position_spec(u, a) == old(risk).position_spec(u, a),
            forall|a: u32| #[trigger] final(risk).history_count(a) == old(risk).history_count(a),
            forall|a: u32| #[trigger] final(risk).history_slots(a) == old(risk).history_slots(a),
    {
        validate_price_history(&prices)?;
        let last = prices[prices.len() - 1];
        self.price_history.insert(asset_id as u128, prices);
        risk.set_asset_price(asset_id, last);
        Ok(())
    }

    /// The stored history of an asset, empty when none.
    pub fn get_price_history(&self, asset_id: u32) -> (r: Vec<i128>)
        ensures
            r@ == history_of(self.price_history@, asset_id),
    {
        match self.price_history.get(asset_id as u128) {
            Some(h) => copy_series(h),
            None => Vec::new(),
        }
    }

    pub fn get_strategy(&self, user: AccountId) -> (r: Option<&StatArbStrategy>)
        ensures
            match r {
                Some(s) => self.strategies@.contains_key(user as u128) && *s == self.strategies@[user as u128],
                None => !self.strategies@.contains_key(user as u128),
            },
    {
        self.strategies.get(user as u128)
    }

    pub fn get_active_portfolio(&self, user: AccountId) -> (r: Option<&StatArbPortfolio>)
        ensures
            match r {
                Some(p) => self.portfolios@.contains_key(user as u128) && *p == self.portfolios@[user as u128],
                None => !self.portfolios@.contains_key(user as u128),
            },
    {
        self.portfolios.get(user as u128)
    }

    /// Register (or replace) the user's strategy after checking it.
    pub fn configure_strategy(
        &mut self,
        user: AccountId,
        asset_basket: Vec<u32>,
        lookback_period_days: u32,
        cointegration_threshold: i128,
        entry_z_score: i128,
        exit_z_score: i128,
        rebalance_frequency_hours: u32,
    ) -> (r: Result<(), AutoTradeError>)
        ensures
            final(self).portfolios@ == old(self).portfolios@,
            final(self).price_history@ == old(self).price_history@,
            final(self).next_portfolio_id == old(self).next_portfolio_id,
            !basket_ok(asset_basket@) ==> r == Err::<(), AutoTradeError>(AutoTradeError::InvalidBasketSize),
            basket_ok(asset_basket@) && (lookback_period_days < 4 || cointegration_threshold <= 0 || entry_z_score <= 0
                || exit_z_score < 0 || exit_z_score >= entry_z_score) ==> r == Err::<(), AutoTradeError>(AutoTradeError::InvalidStatArbConfig),
            r is Err ==> final(self).strategies@ == old(self).strategies@,
            r is Ok ==> {
                &&& basket_ok(asset_basket@)
                &&& lookback_period_days >= 4 && cointegration_threshold > 0 && 0 <= exit_z_score < entry_z_score
                &&& final(self).strategies@.dom() == old(self).strategies@.dom().insert(user as u128)
                &&& forall|k: u128| k != user as u128 && #[trigger] old(self).strategies@.contains_key(k)
                        ==> final(self).strategies@[k] == old(self).strategies@[k]
                &&& ({
                    let st = final(self).strategies@[user as u128];
                    &&& st.user == user
                    &&& st.asset_basket@ == asset_basket@
                    &&& st.lookback_period_days == lookback_period_days
                    &&& st.cointegration_threshold == cointegration_threshold
                    &&& st.hedge_ratios@.len() == 0
                    &&& st.entry_z_score == entry_z_score
                    &&& st.exit_z_score == exit_z_score
                    &&& st.rebalance_frequency_hours == rebalance_frequency_hours
                    &&& !st.active_portfolio
                    &&& st.residual_history@.len() == 0
                })
            },
    {
        validate_asset_basket(&asset_basket)?;
        if lookback_period_days < 4 || cointegration_threshold <= 0 || entry_z_score <= 0 || exit_z_score < 0
            || exit_z_score >= entry_z_score {
            return Err(AutoTradeError::InvalidStatArbConfig);
        }
        let strategy = StatArbStrategy {
            user,
            asset_basket,
            lookback_period_days,
            cointegration_threshold,
            hedge_ratios: Vec::new(),
            entry_z_score,
            exit_z_score,
            rebalance_frequency_hours,
            active_portfolio: false,
            residual_history: Vec::new(),
        };
        self.strategies.insert(user as u128, strategy);
        Ok(())
    }

    /// Histories of the basket's assets, cut to a common length.
    pub fn get_aligned_price_histories(&self, asset_basket: &Vec<u32>, lookback_period_days: u32) -> (r: Result<Vec<Vec<i128>>, AutoTradeError>)
        ensures
            match r {
                Ok(h) => aligned_spec(self.price_history@, asset_basket@, lookback_period_days) == Ok::<Seq<Seq<i128>>, AutoTradeError>(views(h@)),
                Err(e) => aligned_spec(self.price_history@, asset_basket@, lookback_period_days) == Err::<Seq<Seq<i128>>, AutoTradeError>(e),
            },
    {
        let ghost m = self.price_history@;
        let ghost b = asset_basket@;
        let mut shortest: u32 = u32::MAX;
        let mut all_histories: Vec<Vec<i128>> = Vec::new();
        let mut i: usize = 0;
        while i < asset_basket.len()
            invariant
                m == self.price_history@,
                b == asset_basket@,
                i <= b.len(),
                shortest_history(m, b, i as int) == Ok::<int, AutoTradeError>(shortest as int),
                all_histories@.len() == i,
                forall|k: int| 0 <= k < i ==> (#[trigger] all_histories@[k])@ == history_of(m, b[k]),
            decreases b.len() - i,
        {
            let asset_id = asset_basket[i];
            let history = self.get_price_history(asset_id);
            match validate_price_history(&history) {
                Ok(()) => {},
                Err(e) => {
                    proof { lemma_shortest_err_sticks(m, b, i + 1, b.len() as int); }
                    return Err(e);
                },
            }
            shortest = if shortest < history.len() as u32 { shortest } else { history.len() as u32 };
            all_histories.push(history);
            i = i + 1;
        }
        let floor = if lookback_period_days > 4 { lookback_period_days } else { 4 };
        let target_len = if shortest < floor { shortest } else { floor };
        if target_len < 4 {
            return Err(AutoTradeError::InsufficientPriceHistory);
        }
        let mut aligned_out: Vec<Vec<i128>> = Vec::new();
        let mut j: usize = 0;
        while j < all_histories.len()
            invariant
                all_histories@.len() == b.len(),
                forall|k: int| 0 <= k < b.len() ==> (#[trigger] all_histories@[k])@ == history_of(m, b[k]),
                j <= b.len(),
                aligned_out@.len() == j,
                forall|k: int| 0 <= k < j ==> (#[trigger] aligned_out@[k])@ == tail_of(history_of(m, b[k]), target_len as int),
            decreases b.len() - j,
        {
            let t = truncate_tail(&all_histories[j], target_len as usize);
            aligned_out.push(t);
            j = j + 1;
        }
        assert(views(aligned_out@) =~= Seq::new(b.len(), |k: int| tail_of(history_of(m, b[k]), target_len as int)));
        Ok(aligned_out)
    }
}


/// A hold, an entry against the spread's deviation, or an exit near the mean.
pub open spec fn action_for(cointegrated: bool, z: int, entry_z: int, exit_z: int) -> StatArbSignalAction {
    if !cointegrated {
        StatArbSignalAction::Hold
    } else if z >= entry_z {
        StatArbSignalAction::EnterShort
    } else if z <= -entry_z {
        StatArbSignalAction::EnterLong
    } else if abs(z) <= exit_z {
        StatArbSignalAction::Exit
    } else {
        StatArbSignalAction::Hold
    }
}

impl StatArbBook {
    /// Test whether the basket's spread is stationary enough to trade.
    pub fn test_cointegration_for_assets(&self, asset_basket: Vec<u32>, lookback_period_days: u32, cointegration_threshold: i128)
        -> (r: Result<CointegrationTest, AutoTradeError>)
        requires
            cointegration_fits(self.price_history@, asset_basket@, lookback_period_days, cointegration_threshold),
        ensures
            match cointegration_spec(self.price_history@, asset_basket@, lookback_period_days, cointegration_threshold) {
                Err(e) => r == Err::<CointegrationTest, AutoTradeError>(e),
                Ok(t) => r matches Ok(ct) && ct.asset_group@ == asset_basket@ && ct.is_cointegrated == t.0
                    && ct.adf_statistic == t.1 && ct.p_value == t.2 && ct.hedge_ratios@ == t.3 && ct.half_life == t.4,
            },
    {
        validate_asset_basket(&asset_basket)?;
        let aligned_h = self.get_aligned_price_histories(&asset_basket, lookback_period_days)?;
        let hedge_ratios = calculate_hedge_ratios_ols(&aligned_h)?;
        let residuals = construct_portfolio(&aligned_h, &hedge_ratios)?;
        let (adf_statistic, p_value) = augmented_dickey_fuller_test(&residuals)?;
        let half_life = calculate_mean_reversion_halflife(adf_statistic);
        let is_cointegrated = adf_statistic <= -cointegration_threshold && half_life > 0;
        Ok(CointegrationTest {
            asset_group: asset_basket,
            is_cointegrated,
            adf_statistic,
            p_value,
            hedge_ratios,
            half_life,
        })
    }

    pub open spec fn strategy_fits(&self, user: AccountId) -> bool {
        let st = self.strategies@[user as u128];
        self.strategies@.contains_key(user as u128) ==>
            cointegration_fits(self.price_history@, st.asset_basket@, st.lookback_period_days, st.cointegration_threshold)
    }

    /// Test the user's configured basket.
    pub fn test_cointegration(&self, user: AccountId) -> (r: Result<CointegrationTest, AutoTradeError>)
        requires
            self.strategy_fits(user),
        ensures
            !self.strategies@.contains_key(user as u128) ==> r == Err::<CointegrationTest, AutoTradeError>(AutoTradeError::InvalidStatArbConfig),
            ({
                let st = self.strategies@[user as u128];
                self.strategies@.contains_key(user as u128) ==>
                    match cointegration_spec(self.price_history@, st.asset_basket@, st.lookback_period_days, st.cointegration_threshold) {
                        Err(e) => r == Err::<CointegrationTest, AutoTradeError>(e),
                        Ok(t) => r matches Ok(ct) && ct.asset_group@ == st.asset_basket@ && ct.is_cointegrated == t.0
                            && ct.adf_statistic == t.1 && ct.p_value == t.2 && ct.hedge_ratios@ == t.3 && ct.half_life == t.4,
                    }
            }),
    {
        let strategy = match self.strategies.get(user as u128) {
            Some(s) => s,
            None => return Err(AutoTradeError::InvalidStatArbConfig),
        };
        let basket = copy_ids(&strategy.asset_basket);
        self.test_cointegration_for_assets(basket, strategy.lookback_period_days, strategy.cointegration_threshold)
    }

    /// The signal's arithmetic stays within range.
    pub open spec fn signal_fits(&self, user: AccountId) -> bool {
        let st = self.strategies@[user as u128];
        &&& self.strategy_fits(user)
        &&& self.strategies@.contains_key(user as u128) ==> {
            &&& st.entry_z_score > i128::MIN
            &&& (cointegration_spec(self.price_history@, st.asset_basket@, st.lookback_period_days, st.cointegration_threshold) matches Ok(t)
                ==> (aligned_spec(self.price_history@, st.asset_basket@, st.lookback_period_days) matches Ok(h) ==> {
                    &&& portfolio_fits(h, t.3)
                    &&& (portfolio_spec(h, t.3) matches Ok(res) ==> res.len() > 0 ==> {
                        &&& z_fits(res, res.last() as int)
                        &&& (z_spec(res, res.last() as int) matches Ok(z) ==> z > i128::MIN)
                    })
                }))
        }
    }

    /// The signal the user's strategy gives on the stored histories.
    pub open spec fn signal_spec(&self, user: AccountId) -> Result<StatArbSignal, AutoTradeError> {
        let st = self.strategies@[user as u128];
        let m = self.price_history@;
        if !self.strategies@.contains_key(user as u128) {
            Err(AutoTradeError::InvalidStatArbConfig)
        } else {
            match cointegration_spec(m, st.asset_basket@, st.lookback_period_days, st.cointegration_threshold) {
                Err(e) => Err(e),
                Ok(t) => match aligned_spec(m, st.asset_basket@, st.lookback_period_days) {
                    Err(e) => Err(e),
                    Ok(h) => match portfolio_spec(h, t.3) {
                        Err(e) => Err(e),
                        Ok(res) => if res.len() == 0 {
                            Err(AutoTradeError::InsufficientPriceHistory)
                        } else {
                            match z_spec(res, res.last() as int) {
                                Err(e) => Err(e),
                                Ok(z) => Ok(StatArbSignal {
                                    action: action_for(t.0, z as int, st.entry_z_score as int, st.exit_z_score as int),
                                    residual: res.last(),
                                    z_score: z,
                                    half_life: t.4 as u32,
                                    is_cointegrated: t.0,
                                }),
                            }
                        },
                    },
                },
            }
        }
    }

    /// The trading signal from the spread's latest z-score.
    pub fn check_stat_arb_signal(&self, user: AccountId) -> (r: Result<StatArbSignal, AutoTradeError>)
        requires
            self.signal_fits(user),
        ensures
            r == self.signal_spec(user),
    {
        let strategy = match self.strategies.get(user as u128) {
            Some(s) => s,
            None => return Err(AutoTradeError::InvalidStatArbConfig),
        };
        let test = self.test_cointegration(user)?;
        let aligned_h = self.get_aligned_price_histories(&strategy.asset_basket, strategy.lookback_period_days)?;
        let residuals = construct_portfolio(&aligned_h, &test.hedge_ratios)?;
        if residuals.len() == 0 {
            return Err(AutoTradeError::InsufficientPriceHistory);
        }
        let latest_residual = residuals[residuals.len() - 1];
        let z_score = calculate_z_score(&residuals, latest_residual)?;
        let magnitude = if z_score < 0 { -z_score } else { z_score };
        let action = if !test.is_cointegrated {
            StatArbSignalAction::Hold
        } else if z_score >= strategy.entry_z_score {
            StatArbSignalAction::EnterShort
        } else if z_score <= -strategy.entry_z_score {
            StatArbSignalAction::EnterLong
        } else if magnitude <= strategy.exit_z_score {
            StatArbSignalAction::Exit
        } else {
            StatArbSignalAction::Hold
        };
        Ok(StatArbSignal {
            action,
            residual: latest_residual,
            z_score,
            half_life: test.half_life,
            is_cointegrated: test.is_cointegrated,
        })
    }

    /// Drop the user's open portfolio and mark the strategy flat.
    pub fn close_stat_arb_portfolio(&mut self, user: AccountId) -> (r: Result<StatArbPortfolio, AutoTradeError>)
        ensures
            final(self).price_history@ == old(self).price_history@,
            final(self).next_portfolio_id == old(self).next_portfolio_id,
            !old(self).strategies@.contains_key(user as u128) ==> {
                &&& r == Err::<StatArbPortfolio, AutoTradeError>(AutoTradeError::InvalidStatArbConfig)
                &&& final(self).strategies@ == old(self).strategies@
                &&& final(self).portfolios@ == old(self).portfolios@
            },
            old(self).strategies@.contains_key(user as u128) && !old(self).portfolios@.contains_key(user as u128) ==> {
                &&& r == Err::<StatArbPortfolio, AutoTradeError>(AutoTradeError::NoActivePortfolio)
                &&& final(self).strategies@ == old(self).strategies@
                &&& final(self).portfolios@ == old(self).portfolios@
            },
            old(self).strategies@.contains_key(user as u128) && old(self).portfolios@.contains_key(user as u128) ==> {
                &&& r == Ok::<StatArbPortfolio, AutoTradeError>(old(self).portfolios@[user as u128])
                &&& final(self).portfolios@ == old(self).portfolios@.remove(user as u128)
                &&& final(self).strategies@ == old(self).strategies@.insert(user as u128,
                        StatArbStrategy { active_portfolio: false, ..old(self).strategies@[user as u128] })
            },
    {
        let k = user as u128;
        if !self.strategies.contains_key(k) {
            return Err(AutoTradeError::InvalidStatArbConfig);
        }
        let portfolio = match self.portfolios.remove(k) {
            Some(p) => p,
            None => {
                proof { assert(self.portfolios@ =~= old(self).portfolios@); }
                return Err(AutoTradeError::NoActivePortfolio);
            },
        };
        let mut strategy = self.strategies.remove(k).unwrap();
        strategy.active_portfolio = false;
        self.strategies.insert(k, strategy);
        proof {
            assert(self.strategies@ =~= old(self).strategies@.insert(k, self.strategies@[k]));
        }
        Ok(portfolio)
    }
}


// ---------------------------------------------------------------------------
// Sizing the legs
// ---------------------------------------------------------------------------

/// The price a leg is sized at: the latest published price when positive,
/// else the last stored history point.
pub open spec fn latest_price_spec(prices: Map<u128, i128>, m: Map<u128, Vec<i128>>, asset: u32) -> Result<i128, AutoTradeError> {
    let h = history_of(m, asset);
    if prices.contains_key(asset as u128) && prices[asset as u128] > 0 {
        Ok(prices[asset as u128])
    } else if h.len() == 0 {
        Err(AutoTradeError::InsufficientPriceHistory)
    } else if h.last() <= 0 {
        Err(AutoTradeError::InvalidPriceData)
    } else {
        Ok(h.last())
    }
}

/// Sum of `|ratios[i]|` over the first `k` ratios.
pub open spec fn abs_sum(ratios: Seq<i128>, k: int) -> int
    decreases k,
{
    if k <= 0 { 0 } else { abs_sum(ratios, k - 1) + abs(ratios[k - 1] as int) }
}

/// One leg per basket asset, its value the ratio's share of `total_value`.
pub open spec fn leg_spec(prices: Map<u128, i128>, m: Map<u128, Vec<i128>>, basket: Seq<u32>, ratios: Seq<i128>,
    total_value: int, is_long_residual: bool, i: int) -> Result<StatArbAssetPosition, AutoTradeError>
{
    if i >= ratios.len() {
        Err(AutoTradeError::InvalidPriceData)
    } else {
        match latest_price_spec(prices, m, basket[i]) {
            Err(e) => Err(e),
            Ok(price) => {
                let ratio = ratios[i];
                let leg = tdiv(total_value * abs(ratio as int), abs_sum(ratios, ratios.len() as int));
                Ok(StatArbAssetPosition {
                    asset_id: basket[i],
                    quantity: crate::math::max(1, tdiv(leg * 10_000, price as int)) as i128,
                    entry_price: price,
                    target_weight: ratio,
                    is_long: if is_long_residual { ratio > 0 } else { !(ratio > 0) },
                })
            },
        }
    }
}

pub open spec fn legs_prefix(prices: Map<u128, i128>, m: Map<u128, Vec<i128>>, basket: Seq<u32>, ratios: Seq<i128>,
    total_value: int, is_long_residual: bool, k: int) -> Result<Seq<StatArbAssetPosition>, AutoTradeError>
    decreases k,
{
    if k <= 0 {
        Ok(Seq::empty())
    } else {
        match legs_prefix(prices, m, basket, ratios, total_value, is_long_residual, k - 1) {
            Err(e) => Err(e),
            Ok(p) => match leg_spec(prices, m, basket, ratios, total_value, is_long_residual, k - 1) {
                Err(e) => Err(e),
                Ok(l) => Ok(p.push(l)),
            },
        }
    }
}

pub open spec fn positions_spec(prices: Map<u128, i128>, m: Map<u128, Vec<i128>>, basket: Seq<u32>, ratios: Seq<i128>,
    total_value: int, is_long_residual: bool) -> Result<Seq<StatArbAssetPosition>, AutoTradeError>
{
    if abs_sum(ratios, ratios.len() as int) == 0 {
        Err(AutoTradeError::InvalidPriceData)
    } else {
        legs_prefix(prices, m, basket, ratios, total_value, is_long_residual, basket.len() as int)
    }
}

pub open spec fn positions_fit(prices: Map<u128, i128>, m: Map<u128, Vec<i128>>, basket: Seq<u32>, ratios: Seq<i128>, total_value: int) -> bool {
    &&& forall|k: int| 0 <= k < ratios.len() ==> #[trigger] ratios[k] > i128::MIN && in_i128(abs_sum(ratios, k + 1))
    &&& forall|k: int| 0 <= k < ratios.len() ==> in_i128(total_value * abs(#[trigger] ratios[k] as int))
    &&& forall|k: int| 0 <= k < ratios.len() && k < basket.len() ==>
        (#[trigger] latest_price_spec(prices, m, basket[k]) matches Ok(price) ==>
            in_i128(tdiv(total_value * abs(ratios[k] as int), abs_sum(ratios, ratios.len() as int)) * 10_000))
}

proof fn lemma_legs_err_sticks(prices: Map<u128, i128>, m: Map<u128, Vec<i128>>, basket: Seq<u32>, ratios: Seq<i128>,
    total_value: int, is_long_residual: bool, k: int, n: int)
    requires
        0 <= k <= n,
        legs_prefix(prices, m, basket, ratios, total_value, is_long_residual, k) is Err,
    ensures
        legs_prefix(prices, m, basket, ratios, total_value, is_long_residual, n)
            == legs_prefix(prices, m, basket, ratios, total_value, is_long_residual, k),
    decreases n - k,
{
    if k < n {
        lemma_legs_err_sticks(prices, m, basket, ratios, total_value, is_long_residual, k, n - 1);
    }
}

impl StatArbBook {
    fn latest_price_for_asset(&self, risk: &RiskBook, asset_id: u32) -> (r: Result<i128, AutoTradeError>)
        ensures
            r == latest_price_spec(risk.prices_spec(), self.price_history@, asset_id),
    {
        match risk.get_asset_price(asset_id) {
            Some(price) => {
                if price > 0 {
                    return Ok(price);
                }
            },
            None => {},
        }
        let history = self.get_price_history(asset_id);
        if history.len() == 0 {
            return Err(AutoTradeError::InsufficientPriceHistory);
        }
        let price = history[history.len() - 1];
        if price <= 0 {
            return Err(AutoTradeError::InvalidPriceData);
        }
        Ok(price)
    }

    /// Legs of a portfolio worth `total_value`, long or short the spread.
    pub fn build_positions(&self, risk: &RiskBook, asset_basket: &Vec<u32>, hedge_ratios: &Vec<i128>, total_value: i128, is_long_residual: bool)
        -> (r: Result<Vec<StatArbAssetPosition>, AutoTradeError>)
        requires
            total_value >= 0,
            positions_fit(risk.prices_spec(), self.price_history@, asset_basket@, hedge_ratios@, total_value as int),
        ensures
            match r {
                Ok(v) => positions_spec(risk.prices_spec(), self.price_history@, asset_basket@, hedge_ratios@, total_value as int, is_long_residual)
                    == Ok::<Seq<StatArbAssetPosition>, AutoTradeError>(v@),
                Err(e) => positions_spec(risk.prices_spec(), self.price_history@, asset_basket@, hedge_ratios@, total_value as int, is_long_residual)
                    == Err::<Seq<StatArbAssetPosition>, AutoTradeError>(e),
            },
    {
        let ghost ratios = hedge_ratios@;
        let mut total_abs_weight: i128 = 0;
        let mut i: usize = 0;
        while i < hedge_ratios.len()
            invariant
                ratios == hedge_ratios@,
                positions_fit(risk.prices_spec(), self.price_history@, asset_basket@, ratios, total_value as int),
                i <= ratios.len(),
                total_abs_weight == abs_sum(ratios, i as int),
            decreases ratios.len() - i,
        {
            let ratio = hedge_ratios[i];
            assert(ratios[i as int] > i128::MIN && in_i128(abs_sum(ratios, i + 1)));
            let magnitude = if ratio < 0 { -ratio } else { ratio };
            total_abs_weight = total_abs_weight + magnitude;
            i = i + 1;
        }
        if total_abs_weight == 0 {
            return Err(AutoTradeError::InvalidPriceData);
        }
        proof {
            lemma_abs_sum_nonneg(ratios, ratios.len() as int);
        }
        let ghost prices = risk.prices_spec();
        let ghost m = self.price_history@;
        let mut positions: Vec<StatArbAssetPosition> = Vec::new();
        let mut j: usize = 0;
        while j < asset_basket.len()
            invariant
                ratios == hedge_ratios@,
                prices == risk.prices_spec(),
                m == self.price_history@,
                total_value >= 0,
                positions_fit(prices, m, asset_basket@, ratios, total_value as int),
                total_abs_weight == abs_sum(ratios, ratios.len() as int),
                total_abs_weight > 0,
                j <= asset_basket@.len(),
                legs_prefix(prices, m, asset_basket@, ratios, total_value as int, is_long_residual, j as int)
                    == Ok::<Seq<StatArbAssetPosition>, AutoTradeError>(positions@),
            decreases asset_basket@.len() - j,
        {
            let asset_id = asset_basket[j];
            if j >= hedge_ratios.len() {
                proof { lemma_legs_err_sticks(prices, m, asset_basket@, ratios, total_value as int, is_long_residual, j + 1, asset_basket@.len() as int); }
                return Err(AutoTradeError::InvalidPriceData);
            }
            let hedge_ratio = hedge_ratios[j];
            let latest_price = match self.latest_price_for_asset(risk, asset_id) {
                Ok(p) => p,
                Err(e) => {
                    proof { lemma_legs_err_sticks(prices, m, asset_basket@, ratios, total_value as int, is_long_residual, j + 1, asset_basket@.len() as int); }
                    return Err(e);
                },
            };
            assert(ratios[j as int] > i128::MIN);
            let magnitude = if hedge_ratio < 0 { -hedge_ratio } else { hedge_ratio };
            assert(in_i128(total_value * abs(ratios[j as int] as int)));
            assert(latest_price_spec(prices, m, asset_basket@[j as int]) matches Ok(price));
            let leg_value = total_value * magnitude / total_abs_weight;
            assert(in_i128(tdiv(total_value * abs(ratios[j as int] as int), abs_sum(ratios, ratios.len() as int)) * 10_000));
            let scaled = leg_value * STAT_ARB_SCALE / latest_price;
            let quantity = if scaled > 1 { scaled } else { 1 };
            let base_is_long = hedge_ratio > 0;
            let is_long = if is_long_residual { base_is_long } else { !base_is_long };
            positions.push(StatArbAssetPosition {
                asset_id,
                quantity,
                entry_price: latest_price,
                target_weight: hedge_ratio,
                is_long,
            });
            j = j + 1;
        }
        Ok(positions)
    }
}

proof fn lemma_abs_sum_nonneg(ratios: Seq<i128>, k: int)
    ensures
        abs_sum(ratios, k) >= 0,
    decreases k,
{
    if k > 0 {
        lemma_abs_sum_nonneg(ratios, k - 1);
    }
}


fn copy_legs(v: &Vec<StatArbAssetPosition>) -> (r: Vec<StatArbAssetPosition>)
    ensures
        r@ == v@,
{
    let mut out: Vec<StatArbAssetPosition> = Vec::new();
    let mut i: usize = 0;
    while i < v.len()
        invariant
            i <= v@.len(),
            out@ == v@.take(i as int),
        decreases v@.len() - i,
    {
        out.push(v[i]);
        i = i + 1;
        proof { assert(out@ =~= v@.take(i as int)); }
    }
    proof { assert(v@.take(v@.len() as int) =~= v@); }
    out
}

fn copy_portfolio(p: &StatArbPortfolio) -> (r: StatArbPortfolio)
    ensures
        r.asset_positions@ == p.asset_positions@,
        r.portfolio_id == p.portfolio_id,
        r.entry_residual == p.entry_residual,
        r.entry_z_score == p.entry_z_score,
        r.entry_time == p.entry_time,
        r.last_rebalanced_at == p.last_rebalanced_at,
        r.total_value == p.total_value,
        r.is_long_residual == p.is_long_residual,
{
    StatArbPortfolio {
        portfolio_id: p.portfolio_id,
        asset_positions: copy_legs(&p.asset_positions),
        entry_residual: p.entry_residual,
        entry_z_score: p.entry_z_score,
        entry_time: p.entry_time,
        last_rebalanced_at: p.last_rebalanced_at,
        total_value: p.total_value,
        is_long_residual: p.is_long_residual,
    }
}

/// The residual spread of the strategy's basket under `ratios`.
pub open spec fn residuals_spec(m: Map<u128, Vec<i128>>, st: StatArbStrategy, ratios: Seq<i128>) -> Result<Seq<i128>, AutoTradeError> {
    match aligned_spec(m, st.asset_basket@, st.lookback_period_days) {
        Err(e) => Err(e),
        Ok(h) => portfolio_spec(h, ratios),
    }
}

impl StatArbBook {
    fn collect_recent_residuals(&self, user: AccountId, hedge_ratios: &Vec<i128>) -> (r: Result<Vec<i128>, AutoTradeError>)
        requires
            self.strategies@.contains_key(user as u128),
            aligned_spec(self.price_history@, self.strategies@[user as u128].asset_basket@, self.strategies@[user as u128].lookback_period_days)
                matches Ok(h) ==> portfolio_fits(h, hedge_ratios@),
        ensures
            match r {
                Ok(v) => residuals_spec(self.price_history@, self.strategies@[user as u128], hedge_ratios@) == Ok::<Seq<i128>, AutoTradeError>(v@),
                Err(e) => residuals_spec(self.price_history@, self.strategies@[user as u128], hedge_ratios@) == Err::<Seq<i128>, AutoTradeError>(e),
            },
    {
        let strategy = self.strategies.get(user as u128).unwrap();
        let aligned_h = self.get_aligned_price_histories(&strategy.asset_basket, strategy.lookback_period_days)?;
        construct_portfolio(&aligned_h, hedge_ratios)
    }

    /// The arithmetic of opening or resizing the user's portfolio stays in range.
    pub open spec fn trade_fits(&self, risk: &RiskBook, user: AccountId, total_value: i128) -> bool {
        let st = self.strategies@[user as u128];
        &&& self.signal_fits(user)
        &&& self.strategies@.contains_key(user as u128) ==>
            (cointegration_spec(self.price_history@, st.asset_basket@, st.lookback_period_days, st.cointegration_threshold) matches Ok(t)
                ==> positions_fit(risk.prices_spec(), self.price_history@, st.asset_basket@, t.3, total_value as int))
    }

    /// Open a portfolio on an entry signal of a cointegrated basket.
    pub fn execute_stat_arb_trade(&mut self, risk: &RiskBook, user: AccountId, total_value: i128, now: u64)
        -> (r: Result<StatArbPortfolio, AutoTradeError>)
        requires
            old(self).trade_fits(risk, user, total_value),
            old(self).next_portfolio_id < u64::MAX,
        ensures
            final(self).price_history@ == old(self).price_history@,
            ({
                let st = old(self).strategies@[user as u128];
                let m = old(self).price_history@;
                let t = cointegration_spec(m, st.asset_basket@, st.lookback_period_days, st.cointegration_threshold)->Ok_0;
                let sig = old(self).signal_spec(user)->Ok_0;
                let is_long = sig.action == StatArbSignalAction::EnterLong;
                let expected = if total_value <= 0 {
                    Err(AutoTradeError::InvalidAmount)
                } else if old(self).portfolios@.contains_key(user as u128) {
                    Err(AutoTradeError::ActivePortfolioExists)
                } else if !old(self).strategies@.contains_key(user as u128) {
                    Err(AutoTradeError::InvalidStatArbConfig)
                } else if cointegration_spec(m, st.asset_basket@, st.lookback_period_days, st.cointegration_threshold) is Err {
                    Err(cointegration_spec(m, st.asset_basket@, st.lookback_period_days, st.cointegration_threshold)->Err_0)
                } else if !t.0 {
                    Err(AutoTradeError::NonCointegratedBasket)
                } else if old(self).signal_spec(user) is Err {
                    Err(old(self).signal_spec(user)->Err_0)
                } else if sig.action != StatArbSignalAction::EnterLong && sig.action != StatArbSignalAction::EnterShort {
                    Err(AutoTradeError::NoTradeSignal)
                } else if positions_spec(risk.prices_spec(), m, st.asset_basket@, t.3, total_value as int, is_long) is Err {
                    Err(positions_spec(risk.prices_spec(), m, st.asset_basket@, t.3, total_value as int, is_long)->Err_0)
                } else {
                    Ok(())
                };
                match expected {
                    Err(e) => {
                        &&& r == Err::<StatArbPortfolio, AutoTradeError>(e)
                        &&& final(self).strategies@ == old(self).strategies@
                        &&& final(self).portfolios@ == old(self).portfolios@
                        &&& final(self).next_portfolio_id == old(self).next_portfolio_id
                    },
                    Ok(_) => {
                        let legs = positions_spec(risk.prices_spec(), m, st.asset_basket@, t.3, total_value as int, is_long)->Ok_0;
                        let res = residuals_spec(m, st, t.3)->Ok_0;
                        &&& r matches Ok(p)
                        &&& final(self).portfolios@.contains_key(user as u128)
                        &&& final(self).portfolios@ == old(self).portfolios@.insert(user as u128, final(self).portfolios@[user as u128])
                        &&& ({
                            let p = final(self).portfolios@[user as u128];
                            &&& p.portfolio_id == old(self).next_portfolio_id
                            &&& p.asset_positions@ == legs
                            &&& p.entry_residual == sig.residual
                            &&& p.entry_z_score == sig.z_score
                            &&& p.entry_time == now
                            &&& p.last_rebalanced_at == now
                            &&& p.total_value == total_value
                            &&& p.is_long_residual == is_long
                            &&& r->Ok_0.asset_positions@ == legs && r->Ok_0.portfolio_id == p.portfolio_id
                        })
                        &&& final(self).next_portfolio_id == old(self).next_portfolio_id + 1
                        &&& final(self).strategies@.contains_key(user as u128)
                        &&& final(self).strategies@ == old(self).strategies@.insert(user as u128, final(self).strategies@[user as u128])
                        &&& ({
                            let ns = final(self).strategies@[user as u128];
                            &&& ns.hedge_ratios@ == t.3
                            &&& ns.active_portfolio
                            &&& ns.residual_history@ == tail_of(res, 32)
                            &&& ns.user == st.user && ns.asset_basket@ == st.asset_basket@
                            &&& ns.lookback_period_days == st.lookback_period_days
                            &&& ns.cointegration_threshold == st.cointegration_threshold
                            &&& ns.entry_z_score == st.entry_z_score && ns.exit_z_score == st.exit_z_score
                            &&& ns.rebalance_frequency_hours == st.rebalance_frequency_hours
                        })
                    },
                }
            }),
    {
        if total_value <= 0 {
            return Err(AutoTradeError::InvalidAmount);
        }
        let k = user as u128;
        if self.portfolios.contains_key(k) {
            return Err(AutoTradeError::ActivePortfolioExists);
        }
        if !self.strategies.contains_key(k) {
            return Err(AutoTradeError::InvalidStatArbConfig);
        }
        let test = self.test_cointegration(user)?;
        if !test.is_cointegrated {
            return Err(AutoTradeError::NonCointegratedBasket);
        }
        let signal = self.check_stat_arb_signal(user)?;
        let is_long_residual = match signal.action {
            StatArbSignalAction::EnterLong => true,
            StatArbSignalAction::EnterShort => false,
            _ => return Err(AutoTradeError::NoTradeSignal),
        };
        let basket = copy_ids(&self.strategies.get(k).unwrap().asset_basket);
        let positions = self.build_positions(risk, &basket, &test.hedge_ratios, total_value, is_long_residual)?;
        let residuals = match self.collect_recent_residuals(user, &test.hedge_ratios) {
            Ok(v) => v,
            Err(e) => return Err(e),
        };
        let portfolio_id = self.next_portfolio_id;
        self.next_portfolio_id = self.next_portfolio_id + 1;
        let portfolio = StatArbPortfolio {
            portfolio_id,
            asset_positions: positions,
            entry_residual: signal.residual,
            entry_z_score: signal.z_score,
            entry_time: now,
            last_rebalanced_at: now,
            total_value,
            is_long_residual,
        };
        let mut strategy = self.strategies.remove(k).unwrap();
        strategy.hedge_ratios = copy_series(&test.hedge_ratios);
        strategy.active_portfolio = true;
        strategy.residual_history = truncate_tail(&residuals, MAX_RESIDUAL_HISTORY);
        self.strategies.insert(k, strategy);
        let out = copy_portfolio(&portfolio);
        self.portfolios.insert(k, portfolio);
        proof {
            assert(self.strategies@ =~= old(self).strategies@.insert(k, self.strategies@[k]));
            assert(self.portfolios@ =~= old(self).portfolios@.insert(k, self.portfolios@[k]));
        }
        Ok(out)
    }
}


/// Why (and whether) an open portfolio should be closed now.
pub open spec fn exit_spec(sig: StatArbSignal, exit_z: int, entry_residual: int, is_long_residual: bool, stop_loss_pct: int) -> StatArbExitCheck {
    let entry_reference = crate::math::max(abs(entry_residual), 1);
    let adverse = if is_long_residual { crate::math::max(entry_residual - sig.residual, 0) } else { crate::math::max(sig.residual - entry_residual, 0) };
    let (should_exit, reason) = if !sig.is_cointegrated {
        (true, StatArbExitReason::CointegrationBreakdown)
    } else if abs(sig.z_score as int) <= exit_z {
        (true, StatArbExitReason::Converged)
    } else if adverse * 100 >= entry_reference * stop_loss_pct {
        (true, StatArbExitReason::StopLoss)
    } else {
        (false, StatArbExitReason::NoExit)
    };
    StatArbExitCheck { should_exit, reason, residual: sig.residual, z_score: sig.z_score, is_cointegrated: sig.is_cointegrated }
}

impl StatArbBook {
    pub open spec fn exit_fits(&self, user: AccountId) -> bool {
        let p = self.portfolios@[user as u128];
        &&& self.signal_fits(user)
        &&& self.portfolios@.contains_key(user as u128) ==> {
            &&& p.entry_residual > i128::MIN
            &&& (self.signal_spec(user) matches Ok(sig) ==> {
                &&& in_i128(p.entry_residual - sig.residual)
                &&& in_i128((p.entry_residual - sig.residual) * 100)
                &&& in_i128((sig.residual - p.entry_residual) * 100)
                &&& in_i128(crate::math::max(abs(p.entry_residual as int), 1) * 0xffff_ffff)
            })
        }
    }

    /// Whether the user's open portfolio should be closed, and why. The
    /// stop loss is the user's stop-loss percent of the entry residual.
    pub fn check_stat_arb_exit(&self, user: AccountId, stop_loss_pct: u32) -> (r: Result<StatArbExitCheck, AutoTradeError>)
        requires
            self.exit_fits(user),
        ensures
            !self.strategies@.contains_key(user as u128) ==> r == Err::<StatArbExitCheck, AutoTradeError>(AutoTradeError::InvalidStatArbConfig),
            self.strategies@.contains_key(user as u128) && !self.portfolios@.contains_key(user as u128)
                ==> r == Err::<StatArbExitCheck, AutoTradeError>(AutoTradeError::NoActivePortfolio),
            self.strategies@.contains_key(user as u128) && self.portfolios@.contains_key(user as u128) ==>
                match self.signal_spec(user) {
                    Err(e) => r == Err::<StatArbExitCheck, AutoTradeError>(e),
                    Ok(sig) => r == Ok::<StatArbExitCheck, AutoTradeError>(exit_spec(sig,
                        self.strategies@[user as u128].exit_z_score as int,
                        self.portfolios@[user as u128].entry_residual as int,
                        self.portfolios@[user as u128].is_long_residual, stop_loss_pct as int)),
                },
    {
        let strategy = match self.strategies.get(user as u128) {
            Some(s) => s,
            None => return Err(AutoTradeError::InvalidStatArbConfig),
        };
        let portfolio = match self.portfolios.get(user as u128) {
            Some(p) => p,
            None => return Err(AutoTradeError::NoActivePortfolio),
        };
        let signal = self.check_stat_arb_signal(user)?;
        if !signal.is_cointegrated {
            return Ok(StatArbExitCheck {
                should_exit: true,
                reason: StatArbExitReason::CointegrationBreakdown,
                residual: signal.residual,
                z_score: signal.z_score,
                is_cointegrated: false,
            });
        }
        let z_magnitude = if signal.z_score < 0 { -signal.z_score } else { signal.z_score };
        if z_magnitude <= strategy.exit_z_score {
            return Ok(StatArbExitCheck {
                should_exit: true,
                reason: StatArbExitReason::Converged,
                residual: signal.residual,
                z_score: signal.z_score,
                is_cointegrated: true,
            });
        }
        let entry_magnitude = if portfolio.entry_residual < 0 { -portfolio.entry_residual } else { portfolio.entry_residual };
        let entry_reference = if entry_magnitude > 1 { entry_magnitude } else { 1 };
        let adverse_move = if portfolio.is_long_residual {
            let d = portfolio.entry_residual - signal.residual;
            if d > 0 { d } else { 0 }
        } else {
            let d = signal.residual - portfolio.entry_residual;
            if d > 0 { d } else { 0 }
        };
        assert(entry_reference * stop_loss_pct <= entry_reference * 0xffff_ffff) by (nonlinear_arith)
            requires entry_reference >= 1, stop_loss_pct <= 0xffff_ffff;
        if adverse_move * 100 >= entry_reference * stop_loss_pct as i128 {
            return Ok(StatArbExitCheck {
                should_exit: true,
                reason: StatArbExitReason::StopLoss,
                residual: signal.residual,
                z_score: signal.z_score,
                is_cointegrated: true,
            });
        }
        Ok(StatArbExitCheck {
            should_exit: false,
            reason: StatArbExitReason::NoExit,
            residual: signal.residual,
            z_score: signal.z_score,
            is_cointegrated: true,
        })
    }
}


impl StatArbBook {
    pub open spec fn rebalance_fits(&self, risk: &RiskBook, user: AccountId) -> bool {
        let st = self.strategies@[user as u128];
        let p = self.portfolios@[user as u128];
        &&& self.signal_fits(user)
        &&& self.portfolios@.contains_key(user as u128) ==> p.total_value >= 0
        &&& self.strategies@.contains_key(user as u128) && self.portfolios@.contains_key(user as u128) ==>
            (cointegration_spec(self.price_history@, st.asset_basket@, st.lookback_period_days, st.cointegration_threshold) matches Ok(t)
                ==> positions_fit(risk.prices_spec(), self.price_history@, st.asset_basket@, t.3, p.total_value as int))
    }

    /// Resize the open portfolio's legs to the current hedge ratios, at most
    /// once per rebalance interval.
    pub fn rebalance_stat_arb_portfolio(&mut self, risk: &RiskBook, user: AccountId, now: u64) -> (r: Result<StatArbPortfolio, AutoTradeError>)
        requires
            old(self).rebalance_fits(risk, user),
        ensures
            final(self).price_history@ == old(self).price_history@,
            final(self).next_portfolio_id == old(self).next_portfolio_id,
            ({
                let st = old(self).strategies@[user as u128];
                let p = old(self).portfolios@[user as u128];
                let m = old(self).price_history@;
                let c = cointegration_spec(m, st.asset_basket@, st.lookback_period_days, st.cointegration_threshold);
                let t = c->Ok_0;
                let legs = positions_spec(risk.prices_spec(), m, st.asset_basket@, t.3, p.total_value as int, p.is_long_residual);
                let gap = if now >= p.last_rebalanced_at { now - p.last_rebalanced_at } else { 0 };
                let unchanged = final(self).strategies@ == old(self).strategies@ && final(self).portfolios@ == old(self).portfolios@;
                if !old(self).strategies@.contains_key(user as u128) {
                    r == Err::<StatArbPortfolio, AutoTradeError>(AutoTradeError::InvalidStatArbConfig) && unchanged
                } else if !old(self).portfolios@.contains_key(user as u128) {
                    r == Err::<StatArbPortfolio, AutoTradeError>(AutoTradeError::NoActivePortfolio) && unchanged
                } else if c is Err {
                    r == Err::<StatArbPortfolio, AutoTradeError>(c->Err_0) && unchanged
                } else if !t.0 {
                    r == Err::<StatArbPortfolio, AutoTradeError>(AutoTradeError::NonCointegratedBasket) && unchanged
                } else if gap < st.rebalance_frequency_hours * 3600 {
                    r matches Ok(q) && q.asset_positions@ == p.asset_positions@ && q.last_rebalanced_at == p.last_rebalanced_at && unchanged
                } else if legs is Err {
                    r == Err::<StatArbPortfolio, AutoTradeError>(legs->Err_0) && unchanged
                } else {
                    let res = residuals_spec(m, st, t.3)->Ok_0;
                    &&& r matches Ok(q) && q.asset_positions@ == legs->Ok_0 && q.last_rebalanced_at == now
                    &&& final(self).portfolios@.contains_key(user as u128)
                    &&& final(self).portfolios@ == old(self).portfolios@.insert(user as u128, final(self).portfolios@[user as u128])
                    &&& ({
                        let q = final(self).portfolios@[user as u128];
                        &&& q.asset_positions@ == legs->Ok_0
                        &&& q.last_rebalanced_at == now
                        &&& q.portfolio_id == p.portfolio_id && q.entry_residual == p.entry_residual
                        &&& q.entry_z_score == p.entry_z_score && q.entry_time == p.entry_time
                        &&& q.total_value == p.total_value && q.is_long_residual == p.is_long_residual
                    })
                    &&& final(self).strategies@ == old(self).strategies@.insert(user as u128, final(self).strategies@[user as u128])
                    &&& final(self).strategies@[user as u128].hedge_ratios@ == t.3
                    &&& final(self).strategies@[user as u128].residual_history@ == tail_of(res, 32)
                    &&& final(self).strategies@[user as u128].active_portfolio == st.active_portfolio
                    &&& final(self).strategies@[user as u128].asset_basket@ == st.asset_basket@
                }
            }),
    {
        let k = user as u128;
        if !self.strategies.contains_key(k) {
            return Err(AutoTradeError::InvalidStatArbConfig);
        }
        if !self.portfolios.contains_key(k) {
            return Err(AutoTradeError::NoActivePortfolio);
        }
        let test = self.test_cointegration(user)?;
        if !test.is_cointegrated {
            return Err(AutoTradeError::NonCointegratedBasket);
        }
        let hours = self.strategies.get(k).unwrap().rebalance_frequency_hours;
        let min_rebalance_gap = hours as u64 * 3600;
        let active = self.portfolios.get(k).unwrap();
        let gap = if now >= active.last_rebalanced_at { now - active.last_rebalanced_at } else { 0 };
        if gap < min_rebalance_gap {
            return Ok(copy_portfolio(active));
        }
        let total_value = active.total_value;
        let is_long_residual = active.is_long_residual;
        let basket = copy_ids(&self.strategies.get(k).unwrap().asset_basket);
        let updated_positions = self.build_positions(risk, &basket, &test.hedge_ratios, total_value, is_long_residual)?;
        let residuals = match self.collect_recent_residuals(user, &test.hedge_ratios) {
            Ok(v) => v,
            Err(e) => return Err(e),
        };
        let mut portfolio = self.portfolios.remove(k).unwrap();
        portfolio.asset_positions = updated_positions;
        portfolio.last_rebalanced_at = now;
        let out = copy_portfolio(&portfolio);
        self.portfolios.insert(k, portfolio);
        let mut strategy = self.strategies.remove(k).unwrap();
        strategy.hedge_ratios = copy_series(&test.hedge_ratios);
        strategy.residual_history = truncate_tail(&residuals, MAX_RESIDUAL_HISTORY);
        self.strategies.insert(k, strategy);
        proof {
            assert(self.strategies@ =~= old(self).strategies@.insert(k, self.strategies@[k]));
            assert(self.portfolios@ =~= old(self).portfolios@.insert(k, self.portfolios@[k]));
        }
        Ok(out)
    }
}

}
