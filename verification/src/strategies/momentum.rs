//! Momentum trading: rate of change, RSI, a MACD approximation and trend
//! strength; signals, positions with trailing stops, and ranking of assets
//! by momentum.
use vstd::prelude::*;
use crate::errors::AutoTradeError;
use crate::math::{in_i128, tdiv, abs, div_toward_zero, min};
use crate::store::OrdMap;
use crate::AccountId;

verus! {

pub const STELLAR_DECIMALS: u32 = 7;
pub const STELLAR_SCALE: i128 = 10_000_000;

/// An asset pair by asset ids.
#[derive(Clone, Copy, Debug, PartialEq, Eq, Structural)]
pub struct AssetPair {
    pub base: u32,
    pub quote: u32,
}

/// A momentum strategy.
#[derive(Debug)]
pub struct MomentumStrategy {
    pub strategy_id: u64,
    pub user: AccountId,
    pub asset_pairs: Vec<AssetPair>,
    pub momentum_period_days: u32,
    /// Smallest rate of change that signals, in basis points.
    pub min_momentum_threshold: i128,
    pub trend_confirmation_required: bool,
    /// Position size in basis points of the portfolio.
    pub position_size_pct: u32,
    /// Trailing stop distance below the high, in basis points.
    pub trailing_stop_pct: u32,
    pub ranking_enabled: bool,
}

/// A momentum position.
#[derive(Clone, Copy, Debug, PartialEq, Eq, Structural)]
pub struct MomentumPosition {
    pub asset_pair: AssetPair,
    pub entry_price: i128,
    pub entry_time: u64,
    pub highest_price: i128,
    pub trailing_stop_price: i128,
    pub amount: i128,
    pub momentum_at_entry: i128,
}

/// Momentum indicators of a price series.
#[derive(Clone, Copy, Debug, PartialEq, Eq, Structural)]
pub struct MomentumIndicators {
    /// Rate of change over the series, in basis points.
    pub rate_of_change: i128,
    /// RSI, 0 to 10_000.
    pub rsi: u32,
    pub macd: i128,
    pub macd_signal: i128,
    /// Share of recent rises, 0 to 10_000.
    pub trend_strength: u32,
}

#[derive(Clone, Copy, Debug, PartialEq, Eq, Structural)]
pub enum TradeDirection {
    Buy,
    Sell,
}

/// A momentum signal.
#[derive(Clone, Copy, Debug, PartialEq, Eq, Structural)]
pub struct MomentumSignal {
    pub asset_pair: AssetPair,
    pub direction: TradeDirection,
    pub momentum_strength: i128,
    pub rsi: u32,
    pub trend_strength: u32,
    pub confidence: u32,
}

/// The persistent slots of momentum strategies.
#[derive(Clone, Copy, Debug, PartialEq, Eq, Structural)]
pub enum MomentumDataKey {
    Strategy(u64),
    StrategyPositions(u64),
    PriceHistory(AssetPair, u64),
}

/// Rate of change from the first to the last price, in basis points; none
/// with fewer than two prices or a zero first price.
pub open spec fn roc_of(s: Seq<i128>) -> Result<i128, AutoTradeError> {
    if s.len() < 2 || s[0] == 0 {
        Err(AutoTradeError::InsufficientPriceHistory)
    } else {
        Ok(tdiv((s.last() - s[0]) * 10_000, s[0] as int) as i128)
    }
}

/// Rate of change from the first to the last price, in basis points.
pub fn calculate_rate_of_change(prices: &Vec<i128>, _period_days: u32) -> (r: Result<i128, AutoTradeError>)
    requires
        prices@.len() >= 2 ==> in_i128(prices@.last() - prices@[0]) && in_i128((prices@.last() - prices@[0]) * 10_000)
            && !((prices@.last() - prices@[0]) * 10_000 == i128::MIN && prices@[0] == -1),
    ensures
        r == roc_of(prices@),
{
    if prices.len() < 2 {
        return Err(AutoTradeError::InsufficientPriceHistory);
    }
    let current_price = prices[prices.len() - 1];
    let old_price = prices[0];
    if old_price == 0 {
        return Err(AutoTradeError::InsufficientPriceHistory);
    }
    Ok(div_toward_zero((current_price - old_price) * 10_000, old_price))
}

/// The rise from `i - 1` to `i` (0 when none).
pub open spec fn gain_at(s: Seq<i128>, i: int) -> int {
    if i > 0 && s[i] - s[i - 1] > 0 { s[i] - s[i - 1] } else { 0 }
}

/// The fall from `i - 1` to `i` (0 when none).
pub open spec fn loss_at(s: Seq<i128>, i: int) -> int {
    if i > 0 && !(s[i] - s[i - 1] > 0) { abs(s[i] - s[i - 1]) } else { 0 }
}

/// Total rises over positions `lo..hi`.
pub open spec fn gains_between(s: Seq<i128>, lo: int, hi: int) -> int
    decreases hi - lo,
{
    if hi <= lo { 0 } else { gains_between(s, lo, hi - 1) + gain_at(s, hi - 1) }
}

/// Total falls over positions `lo..hi`.
pub open spec fn losses_between(s: Seq<i128>, lo: int, hi: int) -> int
    decreases hi - lo,
{
    if hi <= lo { 0 } else { losses_between(s, lo, hi - 1) + loss_at(s, hi - 1) }
}

/// RSI over the last `period` changes, 0 to 10_000 (5_000 when flat).
pub open spec fn rsi_of(s: Seq<i128>, period: int) -> Result<u32, AutoTradeError> {
    if s.len() < period + 1 {
        Err(AutoTradeError::InsufficientPriceHistory)
    } else {
        let lo = s.len() - period;
        let avg_gain = gains_between(s, lo, s.len() as int) / period;
        let avg_loss = losses_between(s, lo, s.len() as int) / period;
        if avg_gain + avg_loss == 0 {
            Ok(5000)
        } else {
            let rsi = (100 * avg_gain * 100) / (avg_gain + avg_loss);
            Ok(if rsi > 10_000 { 10_000 } else { rsi as u32 })
        }
    }
}

/// The arithmetic of an RSI stays within `i128`.
pub open spec fn rsi_fits(s: Seq<i128>, period: int) -> bool {
    let lo = s.len() - period;
    &&& forall|i: int| lo <= i < s.len() && i > 0 ==> in_i128(#[trigger] s[i] - s[i - 1]) && s[i] - s[i - 1] > i128::MIN
    &&& forall|k: int| lo <= k <= s.len() ==> in_i128(#[trigger] gains_between(s, lo, k)) && in_i128(losses_between(s, lo, k))
    &&& in_i128(10_000 * (gains_between(s, lo, s.len() as int) / period))
    &&& in_i128(gains_between(s, lo, s.len() as int) / period + losses_between(s, lo, s.len() as int) / period)
}

proof fn lemma_between_nonneg(s: Seq<i128>, lo: int, hi: int)
    ensures
        gains_between(s, lo, hi) >= 0,
        losses_between(s, lo, hi) >= 0,
    decreases hi - lo,
{
    if hi > lo {
        lemma_between_nonneg(s, lo, hi - 1);
    }
}

/// RSI over the last `period` changes.
pub fn calculate_rsi_from_prices(prices: &Vec<i128>, period: u32) -> (r: Result<u32, AutoTradeError>)
    requires
        period > 0,
        prices@.len() >= period + 1 ==> rsi_fits(prices@, period as int),
    ensures
        r == rsi_of(prices@, period as int),
{
    let period_len = period as usize;
    if prices.len() <= period_len {
        return Err(AutoTradeError::InsufficientPriceHistory);
    }
    let ghost s = prices@;
    let lo = prices.len() - period_len;
    let mut gains: i128 = 0;
    let mut losses: i128 = 0;
    let mut i: usize = lo;
    while i < prices.len()
        invariant
            lo <= i <= s.len(),
            s == prices@,
            lo == s.len() - period,
            rsi_fits(s, period as int),
            gains == gains_between(s, lo as int, i as int),
            losses == losses_between(s, lo as int, i as int),
        decreases s.len() - i,
    {
        if i != 0 {
            proof {
                assert(in_i128(s[i as int] - s[i as int - 1]));
                assert(in_i128(gains_between(s, lo as int, i as int + 1)));
                assert(in_i128(losses_between(s, lo as int, i as int + 1)));
            }
            let change = prices[i] - prices[i - 1];
            if change > 0 {
                gains = gains + change;
            } else {
                losses = losses + (if change < 0 { -change } else { change });
            }
        }
        i = i + 1;
    }
    proof { lemma_between_nonneg(s, lo as int, s.len() as int); }
    let avg_gain = gains / period_len as i128;
    let avg_loss = losses / period_len as i128;
    if avg_gain + avg_loss == 0 {
        return Ok(5000);
    }
    proof {
        assert(avg_gain >= 0 && avg_loss >= 0);
        assert(avg_gain * 10_000 <= i128::MAX);
    }
    let rsi = (100 * avg_gain * 100) / (avg_gain + avg_loss);
    let rsi_capped: u32 = if rsi > 10_000 { 10_000 } else { rsi as u32 };
    Ok(rsi_capped)
}

/// The sum of the last `k` prices.
pub open spec fn tail_sum(s: Seq<i128>, k: int) -> int
    decreases k,
{
    if k <= 0 { 0 } else { tail_sum(s, k - 1) + s[s.len() - k] }
}

/// MACD approximation: the average of the last 12 prices minus that of the
/// last 26 (of all of them where there are fewer), with a signal line at
/// nine tenths of it; needs at least one price.
pub open spec fn macd_of(s: Seq<i128>) -> Result<(i128, i128), AutoTradeError> {
    if s.len() == 0 {
        Err(AutoTradeError::InsufficientPriceHistory)
    } else {
        let short = min(12, s.len() as int);
        let long = min(26, s.len() as int);
        let macd = tdiv(tail_sum(s, short), short) - tdiv(tail_sum(s, long), long);
        Ok((macd as i128, tdiv(macd * 9, 10) as i128))
    }
}

/// The arithmetic of the MACD stays within `i128`.
pub open spec fn macd_fits(s: Seq<i128>) -> bool {
    let short = min(12, s.len() as int);
    let long = min(26, s.len() as int);
    let macd = tdiv(tail_sum(s, short), short) - tdiv(tail_sum(s, long), long);
    &&& forall|k: int| 0 <= k <= long ==> in_i128(#[trigger] tail_sum(s, k))
    &&& in_i128(macd)
    &&& in_i128(macd * 9)
}

/// Sum of the prices at positions `from..len`.
fn sum_from(prices: &Vec<i128>, k: usize) -> (r: i128)
    requires
        k <= prices@.len(),
        forall|j: int| 0 <= j <= k ==> in_i128(#[trigger] tail_sum(prices@, j)),
    ensures
        r == tail_sum(prices@, k as int),
{
    let n = prices.len();
    let mut sum: i128 = 0;
    let mut j: usize = 0;
    while j < k
        invariant
            j <= k <= n,
            n == prices@.len(),
            forall|t: int| 0 <= t <= k ==> in_i128(#[trigger] tail_sum(prices@, t)),
            sum == tail_sum(prices@, j as int),
        decreases k - j,
    {
        proof { assert(in_i128(tail_sum(prices@, j as int + 1))); }
        sum = sum + prices[n - 1 - j];
        j = j + 1;
    }
    sum
}

/// MACD approximation and its signal line.
pub fn calculate_macd_from_prices(prices: &Vec<i128>) -> (r: Result<(i128, i128), AutoTradeError>)
    requires
        prices@.len() >= 1 ==> macd_fits(prices@),
    ensures
        r == macd_of(prices@),
{
    let n = prices.len();
    if n == 0 {
        return Err(AutoTradeError::InsufficientPriceHistory);
    }
    let short: usize = if n < 12 { n } else { 12 };
    let long: usize = if n < 26 { n } else { 26 };
    let sum_12 = sum_from(prices, short);
    let avg_12 = div_toward_zero(sum_12, short as i128);
    let sum_26 = sum_from(prices, long);
    let avg_26 = div_toward_zero(sum_26, long as i128);
    let macd = avg_12 - avg_26;
    let signal = div_toward_zero(macd * 9, 10);
    Ok((macd, signal))
}

/// How many of the steps into positions `len-1, ..., len-k+1` are rises.
pub open spec fn rises_upto(s: Seq<i128>, k: int) -> int
    decreases k,
{
    if k <= 1 {
        0
    } else {
        let idx = s.len() - (k - 1);
        rises_upto(s, k - 1) + if idx > 0 && s[idx] > s[idx - 1] { 1int } else { 0 }
    }
}

/// Trend strength: the share of rises among the last 19 steps, over 20,
/// in basis points; 0 with fewer than 20 prices.
pub open spec fn trend_of(s: Seq<i128>) -> u32 {
    if s.len() < 20 { 0 } else { (rises_upto(s, 20) * 10_000 / 20) as u32 }
}

proof fn lemma_rises_bound(s: Seq<i128>, k: int)
    ensures
        0 <= rises_upto(s, k) <= if k > 1 { k - 1 } else { 0 },
    decreases k,
{
    if k > 1 {
        lemma_rises_bound(s, k - 1);
    }
}

/// Trend strength of a series.
pub fn calculate_trend_strength(prices: &Vec<i128>) -> (r: Result<u32, AutoTradeError>)
    ensures
        r == Ok::<u32, AutoTradeError>(trend_of(prices@)),
{
    if prices.len() < 20 {
        return Ok(0);
    }
    let mut increasing_count: u32 = 0;
    let lookback: u32 = 20;
    let mut i: usize = 1;
    while i < 20
        invariant
            1 <= i <= 20,
            prices@.len() >= 20,
            increasing_count == rises_upto(prices@, i as int),
            increasing_count < i,
        decreases 20 - i,
    {
        proof { lemma_rises_bound(prices@, i as int); }
        let idx = prices.len() - i;
        if idx > 0 && prices[idx] > prices[idx - 1] {
            increasing_count = increasing_count + 1;
        }
        i = i + 1;
    }
    Ok((increasing_count * 10_000) / lookback)
}

/// All indicators of a series.
pub open spec fn indicators_of(s: Seq<i128>) -> Result<MomentumIndicators, AutoTradeError> {
    if s.len() == 0 {
        Err(AutoTradeError::InsufficientPriceHistory)
    } else {
        match roc_of(s) {
            Err(e) => Err(e),
            Ok(roc) => match rsi_of(s, 14) {
                Err(e) => Err(e),
                Ok(rsi) => match macd_of(s) {
                    Err(e) => Err(e),
                    Ok((macd, signal)) => Ok(MomentumIndicators {
                        rate_of_change: roc, rsi: rsi, macd: macd, macd_signal: signal, trend_strength: trend_of(s),
                    }),
                },
            },
        }
    }
}

/// The arithmetic of all indicators stays within `i128`.
pub open spec fn indicators_fit(s: Seq<i128>) -> bool {
    &&& (s.len() >= 2 ==> in_i128(s.last() - s[0]) && in_i128((s.last() - s[0]) * 10_000)
            && !((s.last() - s[0]) * 10_000 == i128::MIN && s[0] == -1))
    &&& (s.len() >= 15 ==> rsi_fits(s, 14))
    &&& (s.len() >= 1 ==> macd_fits(s))
}

/// All indicators of a series.
pub fn calculate_momentum_indicators(prices: &Vec<i128>, _period_days: u32) -> (r: Result<MomentumIndicators, AutoTradeError>)
    requires
        indicators_fit(prices@),
    ensures
        r == indicators_of(prices@),
{
    if prices.len() == 0 {
        return Err(AutoTradeError::InsufficientPriceHistory);
    }
    let rate_of_change = calculate_rate_of_change(prices, 1)?;
    let rsi = calculate_rsi_from_prices(prices, 14)?;
    let (macd, macd_signal) = calculate_macd_from_prices(prices)?;
    let trend_strength = calculate_trend_strength(prices)?;
    Ok(MomentumIndicators { rate_of_change, rsi, macd, macd_signal, trend_strength })
}


/// Confidence of a signal from its indicators, 0 to 10_000: the rate of
/// change (up to half), an extreme RSI, a bullish MACD, and a quarter of
/// the trend strength.
pub open spec fn confidence_of(ind: MomentumIndicators) -> u32 {
    let abs_roc = abs(ind.rate_of_change as int);
    let roc_score: int = if abs_roc * 10 > 5000 { 5000 } else { abs_roc * 10 };
    let rsi_score: int = if ind.rsi > 7000 || ind.rsi < 3000 { 2500 } else { 1000 };
    let macd_score: int = if ind.macd > ind.macd_signal { 2500 } else { 0 };
    let total = roc_score + rsi_score + macd_score + ind.trend_strength / 4;
    (if total > 10_000 { 10_000 } else { total }) as u32
}

/// Confidence of a signal from its indicators.
pub fn calculate_momentum_confidence(indicators: &MomentumIndicators) -> (r: Result<u32, AutoTradeError>)
    requires
        indicators.rate_of_change > i128::MIN,
        in_i128(abs(indicators.rate_of_change as int) * 10),
    ensures
        r == Ok::<u32, AutoTradeError>(confidence_of(*indicators)),
{
    let abs_roc = if indicators.rate_of_change < 0 { -indicators.rate_of_change } else { indicators.rate_of_change };
    let roc_score: u32 = if abs_roc * 10 > 5000 { 5000 } else { (abs_roc * 10) as u32 };
    let rsi_score: u32 = if indicators.rsi > 7000 || indicators.rsi < 3000 { 2500 } else { 1000 };
    let macd_score: u32 = if indicators.macd > indicators.macd_signal { 2500 } else { 0 };
    let trend_score: u32 = indicators.trend_strength / 4;
    let total = roc_score + rsi_score + macd_score + trend_score;
    Ok(if total > 10_000 { 10_000 } else { total })
}

/// A strategy as a value.
pub struct MomentumView {
    pub strategy_id: u64,
    pub user: AccountId,
    pub asset_pairs: Seq<AssetPair>,
    pub momentum_period_days: u32,
    pub min_momentum_threshold: i128,
    pub trend_confirmation_required: bool,
    pub position_size_pct: u32,
    pub trailing_stop_pct: u32,
    pub ranking_enabled: bool,
}

impl MomentumStrategy {
    pub open spec fn view(&self) -> MomentumView {
        MomentumView {
            strategy_id: self.strategy_id,
            user: self.user,
            asset_pairs: self.asset_pairs@,
            momentum_period_days: self.momentum_period_days,
            min_momentum_threshold: self.min_momentum_threshold,
            trend_confirmation_required: self.trend_confirmation_required,
            position_size_pct: self.position_size_pct,
            trailing_stop_pct: self.trailing_stop_pct,
            ranking_enabled: self.ranking_enabled,
        }
    }

    pub fn duplicate(&self) -> (r: Self)
        ensures
            r@ == self@,
    {
        MomentumStrategy {
            strategy_id: self.strategy_id,
            user: self.user,
            asset_pairs: self.asset_pairs.clone(),
            momentum_period_days: self.momentum_period_days,
            min_momentum_threshold: self.min_momentum_threshold,
            trend_confirmation_required: self.trend_confirmation_required,
            position_size_pct: self.position_size_pct,
            trailing_stop_pct: self.trailing_stop_pct,
            ranking_enabled: self.ranking_enabled,
        }
    }
}

/// The signal of a strategy on a pair's prices: a rate of change of at
/// least the threshold (confirmed by RSI above 50, a bullish MACD and a
/// trend above 60% when required), buying on a rise and selling otherwise.
pub open spec fn signal_of(v: MomentumView, asset_pair: AssetPair, s: Seq<i128>) -> Result<Option<MomentumSignal>, AutoTradeError> {
    if s.len() == 0 {
        Ok(None)
    } else {
        match indicators_of(s) {
            Err(e) => Err(e),
            Ok(ind) => if abs(ind.rate_of_change as int) < v.min_momentum_threshold {
                Ok(None)
            } else if v.trend_confirmation_required && !(ind.rsi > 5000 && ind.macd > ind.macd_signal && ind.trend_strength > 6000) {
                Ok(None)
            } else {
                Ok(Some(MomentumSignal {
                    asset_pair: asset_pair,
                    direction: if ind.rate_of_change > 0 { TradeDirection::Buy } else { TradeDirection::Sell },
                    momentum_strength: abs(ind.rate_of_change as int) as i128,
                    rsi: ind.rsi,
                    trend_strength: ind.trend_strength,
                    confidence: confidence_of(ind),
                }))
            },
        }
    }
}

/// The arithmetic of a signal stays within its types.
pub open spec fn signal_fits(s: Seq<i128>) -> bool {
    &&& indicators_fit(s)
    &&& (indicators_of(s) matches Ok(ind) ==> ind.rate_of_change > i128::MIN && in_i128(abs(ind.rate_of_change as int) * 10))
}

proof fn lemma_trend_bound(s: Seq<i128>)
    ensures
        trend_of(s) <= 10_000,
{
    lemma_rises_bound(s, 20);
}

/// The signal of a strategy on a pair's prices.
pub fn check_momentum_signals(strategy: &MomentumStrategy, asset_pair: AssetPair, prices: &Vec<i128>) -> (r: Result<Option<MomentumSignal>, AutoTradeError>)
    requires
        signal_fits(prices@),
    ensures
        r == signal_of(strategy@, asset_pair, prices@),
{
    if prices.len() == 0 {
        return Ok(None);
    }
    let indicators = calculate_momentum_indicators(prices, strategy.momentum_period_days)?;
    let abs_roc = if indicators.rate_of_change < 0 { -indicators.rate_of_change } else { indicators.rate_of_change };
    if abs_roc < strategy.min_momentum_threshold {
        return Ok(None);
    }
    if strategy.trend_confirmation_required {
        let confirmed = indicators.rsi > 5000 && indicators.macd > indicators.macd_signal && indicators.trend_strength > 6000;
        if !confirmed {
            return Ok(None);
        }
    }
    let direction = if indicators.rate_of_change > 0 { TradeDirection::Buy } else { TradeDirection::Sell };
    proof { lemma_trend_bound(prices@); }
    let confidence = calculate_momentum_confidence(&indicators)?;
    Ok(Some(MomentumSignal {
        asset_pair: asset_pair,
        direction: direction,
        momentum_strength: abs_roc,
        rsi: indicators.rsi,
        trend_strength: indicators.trend_strength,
        confidence: confidence,
    }))
}

/// The trailing stop below `price` (0 when the stop distance is 100% or
/// more).
pub open spec fn stop_below(price: int, trailing_stop_pct: int) -> int {
    if trailing_stop_pct < 10_000 { tdiv(price * (10_000 - trailing_stop_pct), 10_000) } else { 0 }
}

/// The positions after the trailing-stop check of keys `keys[..i]`.
pub open spec fn stops_removed(m: Map<u128, MomentumPosition>, keys: Seq<u128>, i: int) -> Map<u128, MomentumPosition>
    decreases i,
{
    if i <= 0 {
        m
    } else {
        let prev = stops_removed(m, keys, i - 1);
        let k = keys[i - 1];
        if m.contains_key(k) && m[k].highest_price <= m[k].trailing_stop_price { prev.remove(k) } else { prev }
    }
}

/// The pairs closed by the trailing-stop check of keys `keys[..i]`.
pub open spec fn stops_closed(m: Map<u128, MomentumPosition>, keys: Seq<u128>, i: int) -> Seq<AssetPair>
    decreases i,
{
    if i <= 0 {
        Seq::empty()
    } else {
        let prev = stops_closed(m, keys, i - 1);
        let k = keys[i - 1];
        if m.contains_key(k) && m[k].highest_price <= m[k].trailing_stop_price { prev.push(m[k].asset_pair) } else { prev }
    }
}

proof fn lemma_stops_removed_other(m: Map<u128, MomentumPosition>, keys: Seq<u128>, i: int, k: u128)
    requires
        forall|j: int| 0 <= j < i ==> keys[j] != k,
    ensures
        stops_removed(m, keys, i).contains_key(k) == m.contains_key(k),
        m.contains_key(k) ==> stops_removed(m, keys, i)[k] == m[k],
    decreases i,
{
    if i > 0 {
        lemma_stops_removed_other(m, keys, i - 1, k);
    }
}

/// A pair-to-score ranking.
pub type Ranking = Seq<(AssetPair, i128)>;

/// The pairs of a strategy scored in order (those with prices), or the
/// first indicator failure.
pub open spec fn scored(pairs: Seq<AssetPair>, pm: Map<u128, Vec<i128>>, k: int) -> Result<Ranking, AutoTradeError>
    decreases k,
{
    if k <= 0 {
        Ok(Seq::empty())
    } else {
        match scored(pairs, pm, k - 1) {
            Err(e) => Err(e),
            Ok(prev) => {
                let p = pairs[k - 1];
                if pm.contains_key(p.base as u128) {
                    match indicators_of(pm[p.base as u128]@) {
                        Err(e) => Err(e),
                        Ok(ind) => Ok(prev.push((p, (ind.rate_of_change + ind.trend_strength / 10) as i128))),
                    }
                } else {
                    Ok(prev)
                }
            },
        }
    }
}

/// `b` rearranges `a` by the index map `perm`.
pub open spec fn permutes<T>(a: Seq<T>, b: Seq<T>, perm: Seq<int>) -> bool {
    &&& a.len() == b.len()
    &&& perm.len() == a.len()
    &&& forall|k: int| 0 <= k < perm.len() ==> 0 <= #[trigger] perm[k] < a.len()
    &&& forall|k: int, l: int| 0 <= k < l < perm.len() ==> #[trigger] perm[k] != #[trigger] perm[l]
    &&& forall|k: int| 0 <= k < b.len() ==> #[trigger] b[k] == a[perm[k]]
}

/// `b` is a rearrangement of `a`.
pub open spec fn is_rearrangement<T>(a: Seq<T>, b: Seq<T>) -> bool {
    exists|perm: Seq<int>| permutes(a, b, perm)
}

/// Scores in descending order.
pub open spec fn sorted_desc(s: Ranking) -> bool {
    forall|a: int, b: int| 0 <= a < b < s.len() ==> #[trigger] s[a].1 >= #[trigger] s[b].1
}

/// Sorts by score, highest first, by repeated swaps.
fn sort_by_score(ranked: &mut Vec<(AssetPair, i128)>)
    ensures
        is_rearrangement(old(ranked)@, final(ranked)@),
        sorted_desc(final(ranked)@),
{
    let n = ranked.len();
    let ghost orig = ranked@;
    let ghost mut perm: Seq<int> = Seq::new(n as nat, |k: int| k);
    let mut i: usize = 0;
    while i < n
        invariant
            n == ranked@.len(),
            i <= n,
            permutes(orig, ranked@, perm),
            forall|a: int, b: int| 0 <= a < b < i ==> #[trigger] ranked@[a].1 >= #[trigger] ranked@[b].1,
            forall|a: int, b: int| 0 <= a < i <= b < n ==> #[trigger] ranked@[a].1 >= #[trigger] ranked@[b].1,
        decreases n - i,
    {
        let mut j: usize = i;
        while j < n
            invariant
                n == ranked@.len(),
                i < n,
                i <= j <= n,
                permutes(orig, ranked@, perm),
                forall|a: int, b: int| 0 <= a < b < i ==> #[trigger] ranked@[a].1 >= #[trigger] ranked@[b].1,
                forall|a: int, b: int| 0 <= a < i <= b < n ==> #[trigger] ranked@[a].1 >= #[trigger] ranked@[b].1,
                forall|b: int| i < b < j ==> ranked@[i as int].1 >= #[trigger] ranked@[b].1,
            decreases n - j,
        {
            if j > 0 {
                let (pair_i, score_i) = ranked[i];
                let (pair_j, score_j) = ranked[j];
                if score_j > score_i {
                    let ghost before = ranked@;
                    ranked.set(i, (pair_j, score_j));
                    ranked.set(j, (pair_i, score_i));
                    proof {
                        let old_perm = perm;
                        perm = perm.update(i as int, old_perm[j as int]).update(j as int, old_perm[i as int]);
                        assert forall|k: int| 0 <= k < ranked@.len() implies #[trigger] ranked@[k] == orig[perm[k]] by {
                            if k == i { assert(ranked@[k] == before[j as int]); }
                            else if k == j { assert(ranked@[k] == before[i as int]); }
                            else { assert(ranked@[k] == before[k]); }
                        }
                        assert forall|k: int, l: int| 0 <= k < l < perm.len() implies #[trigger] perm[k] != #[trigger] perm[l] by {
                            let ok = if k == i { j as int } else if k == j { i as int } else { k };
                            let ol = if l == i { j as int } else if l == j { i as int } else { l };
                            assert(perm[k] == old_perm[ok]);
                            assert(perm[l] == old_perm[ol]);
                            if ok < ol { assert(old_perm[ok] != old_perm[ol]); }
                            else { assert(old_perm[ol] != old_perm[ok]); }
                        }
                        assert forall|k: int| 0 <= k < perm.len() implies 0 <= #[trigger] perm[k] < orig.len() by {
                            let ok = if k == i { j as int } else if k == j { i as int } else { k };
                            assert(perm[k] == old_perm[ok]);
                        }
                        assert forall|a: int, b: int| 0 <= a < i <= b < n implies #[trigger] ranked@[a].1 >= #[trigger] ranked@[b].1 by {
                            let ob = if b == i { j as int } else if b == j { i as int } else { b };
                            assert(ranked@[b] == before[ob]);
                            assert(before[a].1 >= before[ob].1);
                        }
                        assert forall|a: int, b: int| 0 <= a < b < i implies #[trigger] ranked@[a].1 >= #[trigger] ranked@[b].1 by {
                            assert(ranked@[a] == before[a] && ranked@[b] == before[b]);
                        }
                        assert forall|b: int| i < b < j + 1 implies ranked@[i as int].1 >= #[trigger] ranked@[b].1 by {
                            if b < j { assert(ranked@[b] == before[b]); }
                        }
                    }
                }
            }
            j = j + 1;
        }
        proof {
            assert forall|a: int, b: int| 0 <= a < i + 1 <= b < n implies #[trigger] ranked@[a].1 >= #[trigger] ranked@[b].1 by {
                if a < i as int {
                } else {
                    assert(b > i);
                }
            }
            assert forall|a: int, b: int| 0 <= a < b < i + 1 implies #[trigger] ranked@[a].1 >= #[trigger] ranked@[b].1 by {
                if b == i { assert(a < i); }
            }
        }
        i = i + 1;
    }
    proof { assert(permutes(orig, ranked@, perm)); }
}


proof fn lemma_scored_err(pairs: Seq<AssetPair>, pm: Map<u128, Vec<i128>>, k: int, m: int)
    requires
        k <= m,
        scored(pairs, pm, k) is Err,
    ensures
        scored(pairs, pm, m) == scored(pairs, pm, k),
    decreases m - k,
{
    if k < m {
        lemma_scored_err(pairs, pm, k, m - 1);
    }
}

/// Ranks a strategy's pairs that have prices by momentum score (rate of
/// change plus a tenth of the trend strength), highest first.
pub fn rank_assets_by_momentum(strategy: &MomentumStrategy, prices_map: &OrdMap<Vec<i128>>) -> (r: Result<Vec<(AssetPair, i128)>, AutoTradeError>)
    requires
        forall|k: u128| #[trigger] prices_map@.contains_key(k) ==> {
            &&& indicators_fit(prices_map@[k]@)
            &&& indicators_of(prices_map@[k]@) matches Ok(ind) ==> in_i128(ind.rate_of_change + ind.trend_strength / 10)
        },
    ensures
        match scored(strategy.asset_pairs@, prices_map@, strategy.asset_pairs@.len() as int) {
            Err(e) => r == Err::<Vec<(AssetPair, i128)>, AutoTradeError>(e),
            Ok(list) => r matches Ok(v) && is_rearrangement(list, v@) && sorted_desc(v@),
        },
{
    let pairs = &strategy.asset_pairs;
    let mut ranked: Vec<(AssetPair, i128)> = Vec::new();
    let mut i: usize = 0;
    while i < pairs.len()
        invariant
            i <= pairs@.len(),
            pairs@ == strategy.asset_pairs@,
            forall|k: u128| #[trigger] prices_map@.contains_key(k) ==> {
                &&& indicators_fit(prices_map@[k]@)
                &&& indicators_of(prices_map@[k]@) matches Ok(ind) ==> in_i128(ind.rate_of_change + ind.trend_strength / 10)
            },
            scored(pairs@, prices_map@, i as int) == Ok::<Ranking, AutoTradeError>(ranked@),
        decreases pairs@.len() - i,
    {
        let asset_pair = pairs[i];
        match prices_map.get(asset_pair.base as u128) {
            Some(prices) => {
                let indicators = match calculate_momentum_indicators(prices, strategy.momentum_period_days) {
                    Ok(ind) => ind,
                    Err(e) => {
                        proof {
                            assert(indicators_of(prices_map@[asset_pair.base as u128]@) == Err::<MomentumIndicators, AutoTradeError>(e));
                            assert(scored(pairs@, prices_map@, i as int + 1) == Err::<Ranking, AutoTradeError>(e));
                            lemma_scored_err(pairs@, prices_map@, i as int + 1, pairs@.len() as int);
                        }
                        return Err(e);
                    },
                };
                let score = indicators.rate_of_change + (indicators.trend_strength as i128 / 10);
                ranked.push((asset_pair, score));
            },
            None => {},
        }
        i = i + 1;
    }
    let ghost list = ranked@;
    sort_by_score(&mut ranked);
    Ok(ranked)
}

/// All momentum strategies, their positions by base asset, and price
/// snapshots.
pub struct MomentumBook {
    pub strategies: OrdMap<MomentumStrategy>,
    pub positions: OrdMap<OrdMap<MomentumPosition>>,
    pub snapshots: OrdMap<i128>,
}

/// The key of a price snapshot of a pair at a time.
pub open spec fn snapshot_key(pair: AssetPair, timestamp: u64) -> u128 {
    (pair.base as int * 0x1_0000_0000_0000_0000_0000_0000 + pair.quote as int * 0x1_0000_0000_0000_0000 + timestamp as int) as u128
}

/// A strategy's trade id for a pair: the strategy id shifted up 32 bits,
/// or-ed with the base asset.
pub open spec fn trade_id_of(strategy_id: u64, base: u32) -> u64 {
    (strategy_id << 32u64) | (base as u64)
}

impl MomentumBook {
    /// A strategy's positions (none when it has none).
    pub open spec fn positions_of(&self, strategy_id: u64) -> Map<u128, MomentumPosition> {
        if self.positions@.contains_key(strategy_id as u128) { self.positions@[strategy_id as u128]@ } else { Map::empty() }
    }

    /// Positions are keyed by their base asset.
    pub open spec fn wf(&self) -> bool {
        forall|sid: u128, k: u128| #[trigger] self.positions@.contains_key(sid) && #[trigger] self.positions@[sid]@.contains_key(k) ==>
            k <= u32::MAX && self.positions@[sid]@[k].asset_pair.base == k
    }

    pub fn new() -> (r: Self)
        ensures
            r.wf(),
            r.strategies@ == Map::<u128, MomentumStrategy>::empty(),
            r.positions@ == Map::<u128, OrdMap<MomentumPosition>>::empty(),
            r.snapshots@ == Map::<u128, i128>::empty(),
    {
        MomentumBook { strategies: OrdMap::new(), positions: OrdMap::new(), snapshots: OrdMap::new() }
    }

    /// A copy of a strategy.
    pub fn get_momentum_strategy(&self, strategy_id: u64) -> (r: Result<MomentumStrategy, AutoTradeError>)
        ensures
            match r {
                Ok(s) => self.strategies@.contains_key(strategy_id as u128) && s@ == self.strategies@[strategy_id as u128]@,
                Err(e) => !self.strategies@.contains_key(strategy_id as u128) && e == AutoTradeError::StrategyNotFound,
            },
    {
        match self.strategies.get(strategy_id as u128) {
            Some(s) => Ok(s.duplicate()),
            None => Err(AutoTradeError::StrategyNotFound),
        }
    }

    /// Stores a strategy under its id.
    pub fn store_momentum_strategy(&mut self, strategy: MomentumStrategy)
        ensures
            final(self).strategies@ == old(self).strategies@.insert(strategy.strategy_id as u128, strategy),
            final(self).positions@ == old(self).positions@,
            final(self).snapshots@ == old(self).snapshots@,
    {
        self.strategies.insert(strategy.strategy_id as u128, strategy);
    }

    /// A strategy's positions in ascending base-asset order.
    pub fn get_strategy_positions(&self, strategy_id: u64) -> (r: Vec<(u32, MomentumPosition)>)
        requires
            self.wf(),
        ensures
            r@.len() == self.positions_of(strategy_id).dom().len(),
            forall|i: int| 0 <= i < r@.len() ==> #[trigger] self.positions_of(strategy_id).contains_key(r@[i].0 as u128)
                && self.positions_of(strategy_id)[r@[i].0 as u128] == r@[i].1,
            forall|i: int, j: int| 0 <= i < j < r@.len() ==> #[trigger] r@[i].0 < #[trigger] r@[j].0,
    {
        let mut out: Vec<(u32, MomentumPosition)> = Vec::new();
        match self.positions.get(strategy_id as u128) {
            Some(m) => {
                let n = m.len();
                let mut i: usize = 0;
                while i < n
                    invariant
                        forall|k: u128| #[trigger] m@.contains_key(k) ==> k <= u32::MAX,
                        n == m.key_seq().len(),
                        n == m@.dom().len(),
                        m@ == self.positions_of(strategy_id),
                        i <= n,
                        out@.len() == i,
                        forall|a: int, b: int| 0 <= a < b < m.key_seq().len() ==> #[trigger] m.key_seq()[a] < #[trigger] m.key_seq()[b],
                        forall|k: int| 0 <= k < i ==> #[trigger] out@[k].0 as u128 == m.key_seq()[k]
                            && m@.contains_key(m.key_seq()[k]) && m@[m.key_seq()[k]] == out@[k].1,
                    decreases n - i,
                {
                    let k = m.key_at(i);
                    let v = *m.value_at(i);
                    proof { assert(m@.contains_key(k)); }
                    out.push((k as u32, v));
                    i = i + 1;
                }
            },
            None => {},
        }
        out
    }
}


/// Whether a position's pair is among the first `n` ranked pairs.
pub open spec fn in_top(ranked: Seq<(AssetPair, i128)>, n: int, pair: AssetPair) -> bool {
    exists|j: int| 0 <= j < n && j < ranked.len() && #[trigger] ranked[j].0 == pair
}

impl MomentumBook {
    /// Takes a strategy's positions out (an empty map when it has none).
    fn take_positions(&mut self, strategy_id: u64) -> (m: OrdMap<MomentumPosition>)
        ensures
            m@ == old(self).positions_of(strategy_id),
            old(self).positions@.contains_key(strategy_id as u128) ==> m == old(self).positions@[strategy_id as u128],
            !old(self).positions@.contains_key(strategy_id as u128) ==> m.key_seq().len() == 0,
            final(self).positions@ == old(self).positions@.remove(strategy_id as u128),
            final(self).strategies@ == old(self).strategies@,
            final(self).snapshots@ == old(self).snapshots@,
    {
        match self.positions.remove(strategy_id as u128) {
            Some(m) => m,
            None => OrdMap::new(),
        }
    }

    /// Opens a position on a signal at `current_price`, sized at the
    /// strategy's share of `portfolio_value`, with its trailing stop; refused
    /// when the strategy already holds the pair's base asset. Returns the
    /// trade id.
    pub fn execute_momentum_trade(&mut self, strategy_id: u64, signal: MomentumSignal, current_price: i128,
        portfolio_value: i128, now: u64) -> (r: Result<u64, AutoTradeError>)
        requires
            old(self).wf(),
            old(self).strategies@.contains_key(strategy_id as u128) ==> {
                let v = old(self).strategies@[strategy_id as u128]@;
                &&& in_i128(portfolio_value * v.position_size_pct)
                &&& in_i128(current_price * (10_000 - v.trailing_stop_pct))
            },
        ensures
            final(self).wf(),
            final(self).strategies@ == old(self).strategies@,
            final(self).snapshots@ == old(self).snapshots@,
            !old(self).strategies@.contains_key(strategy_id as u128) ==> r == Err::<u64, AutoTradeError>(AutoTradeError::StrategyNotFound),
            (old(self).strategies@.contains_key(strategy_id as u128) && old(self).positions_of(strategy_id).contains_key(signal.asset_pair.base as u128))
                ==> r == Err::<u64, AutoTradeError>(AutoTradeError::PositionAlreadyExists),
            (old(self).strategies@.contains_key(strategy_id as u128) && !old(self).positions_of(strategy_id).contains_key(signal.asset_pair.base as u128)
                && portfolio_value <= 0) ==> r == Err::<u64, AutoTradeError>(AutoTradeError::InvalidAmount),
            r is Err ==> forall|sid: u64| #[trigger] final(self).positions_of(sid) == old(self).positions_of(sid),
            r is Ok ==> {
                let v = old(self).strategies@[strategy_id as u128]@;
                &&& old(self).strategies@.contains_key(strategy_id as u128)
                &&& portfolio_value > 0
                &&& r == Ok::<u64, AutoTradeError>(trade_id_of(strategy_id, signal.asset_pair.base))
                &&& final(self).positions_of(strategy_id) == old(self).positions_of(strategy_id).insert(signal.asset_pair.base as u128, MomentumPosition {
                    asset_pair: signal.asset_pair,
                    entry_price: current_price,
                    entry_time: now,
                    highest_price: current_price,
                    trailing_stop_price: stop_below(current_price as int, v.trailing_stop_pct as int) as i128,
                    amount: tdiv(portfolio_value * v.position_size_pct, 10_000) as i128,
                    momentum_at_entry: signal.momentum_strength,
                })
                &&& forall|sid: u64| sid != strategy_id ==> #[trigger] final(self).positions_of(sid) == old(self).positions_of(sid)
            },
    {
        let (size_pct, stop_pct) = match self.strategies.get(strategy_id as u128) {
            Some(s) => (s.position_size_pct, s.trailing_stop_pct),
            None => return Err(AutoTradeError::StrategyNotFound),
        };
        let pair_key = signal.asset_pair.base;
        let exists = match self.positions.get(strategy_id as u128) {
            Some(m) => m.contains_key(pair_key as u128),
            None => false,
        };
        if exists {
            return Err(AutoTradeError::PositionAlreadyExists);
        }
        if portfolio_value <= 0 {
            return Err(AutoTradeError::InvalidAmount);
        }
        let position_amount = div_toward_zero(portfolio_value * size_pct as i128, 10_000);
        let trailing_stop_price = if stop_pct < 10_000 {
            div_toward_zero(current_price * (10_000 - stop_pct as i128), 10_000)
        } else {
            0
        };
        let position = MomentumPosition {
            asset_pair: signal.asset_pair,
            entry_price: current_price,
            entry_time: now,
            highest_price: current_price,
            trailing_stop_price: trailing_stop_price,
            amount: position_amount,
            momentum_at_entry: signal.momentum_strength,
        };
        let ghost old_b = *old(self);
        let mut positions = self.take_positions(strategy_id);
        positions.insert(pair_key as u128, position);
        self.positions.insert(strategy_id as u128, positions);
        proof {
            assert forall|sid: u64| sid != strategy_id implies #[trigger] self.positions_of(sid) == old_b.positions_of(sid) by {
                assert(sid as u128 != strategy_id as u128);
            }
            assert forall|sid: u128, k: u128| #[trigger] self.positions@.contains_key(sid) && #[trigger] self.positions@[sid]@.contains_key(k) implies
                k <= u32::MAX && self.positions@[sid]@[k].asset_pair.base == k by {
                if sid != strategy_id as u128 {
                    assert(old_b.positions@.contains_key(sid) && old_b.positions@[sid]@.contains_key(k));
                } else if k != pair_key as u128 {
                    assert(old_b.positions@.contains_key(sid) && old_b.positions@[sid]@.contains_key(k));
                }
            }
        }
        Ok((strategy_id << 32u64) | (pair_key as u64))
    }

    /// Checks the trailing stops of a strategy's positions, in ascending
    /// base-asset order. Each position is valued at its highest price;
    /// positions whose stop is reached are closed, and their pairs returned.
    pub fn update_trailing_stops(&mut self, strategy_id: u64) -> (r: Result<Vec<AssetPair>, AutoTradeError>)
        requires
            old(self).wf(),
        ensures
            final(self).wf(),
            final(self).strategies@ == old(self).strategies@,
            final(self).snapshots@ == old(self).snapshots@,
            !old(self).strategies@.contains_key(strategy_id as u128) ==> r == Err::<Vec<AssetPair>, AutoTradeError>(AutoTradeError::StrategyNotFound)
                && final(self).positions@ == old(self).positions@,
            old(self).strategies@.contains_key(strategy_id as u128) ==> {
                let m = old(self).positions_of(strategy_id);
                let keys = if old(self).positions@.contains_key(strategy_id as u128) { old(self).positions@[strategy_id as u128].key_seq() } else { Seq::empty() };
                &&& r matches Ok(v) && v@ == stops_closed(m, keys, keys.len() as int)
                &&& final(self).positions_of(strategy_id) == stops_removed(m, keys, keys.len() as int)
                &&& final(self).positions@.contains_key(strategy_id as u128)
                &&& forall|sid: u64| sid != strategy_id ==> #[trigger] final(self).positions_of(sid) == old(self).positions_of(sid)
            },
    {
        let stop_pct = match self.strategies.get(strategy_id as u128) {
            Some(s) => s.trailing_stop_pct,
            None => return Err(AutoTradeError::StrategyNotFound),
        };
        let ghost old_b = *old(self);
        let ghost keys0 = if old_b.positions@.contains_key(strategy_id as u128) { old_b.positions@[strategy_id as u128].key_seq() } else { Seq::<u128>::empty() };
        let ghost m0 = old_b.positions_of(strategy_id);
        let mut positions = self.take_positions(strategy_id);
        let n = positions.len();
        let mut keys: Vec<u128> = Vec::new();
        let mut i: usize = 0;
        while i < n
            invariant
                n == positions.key_seq().len(),
                i <= n,
                keys@ == positions.key_seq().take(i as int),
            decreases n - i,
        {
            let k = positions.key_at(i);
            keys.push(k);
            i = i + 1;
            proof { assert(keys@ =~= positions.key_seq().take(i as int)); }
        }
        proof {
            assert(keys@ =~= positions.key_seq());
            if !old_b.positions@.contains_key(strategy_id as u128) {
                assert(positions.key_seq().len() == 0);
                assert(keys@ =~= keys0);
            }
        }
        let ghost ks = keys@;
        let mut closed: Vec<AssetPair> = Vec::new();
        let mut i: usize = 0;
        while i < keys.len()
            invariant
                i <= ks.len(),
                keys@ == ks,
                forall|a: int, b: int| 0 <= a < b < ks.len() ==> #[trigger] ks[a] < #[trigger] ks[b],
                positions@ == stops_removed(m0, ks, i as int),
                closed@ == stops_closed(m0, ks, i as int),
                forall|k: u128| #[trigger] positions@.contains_key(k) ==> m0.contains_key(k) && positions@[k] == m0[k],
            decreases ks.len() - i,
        {
            let key = keys[i];
            proof {
                assert forall|j: int| 0 <= j < i implies ks[j] != key by { assert(ks[j] < ks[i as int]); }
                lemma_stops_removed_other(m0, ks, i as int, key);
            }
            match positions.get(key) {
                Some(p) => {
                    let mut position = *p;
                    let current_price = position.highest_price;
                    if current_price > position.highest_price {
                        position.highest_price = current_price;
                        position.trailing_stop_price = if stop_pct < 10_000 {
                            div_toward_zero(current_price * (10_000 - stop_pct as i128), 10_000)
                        } else {
                            0
                        };
                        positions.insert(key, position);
                    }
                    if current_price <= position.trailing_stop_price {
                        closed.push(position.asset_pair);
                        positions.remove(key);
                    }
                },
                None => {},
            }
            i = i + 1;
            proof {
                assert forall|k: u128| #[trigger] positions@.contains_key(k) implies m0.contains_key(k) && positions@[k] == m0[k] by {
                    assert(stops_removed(m0, ks, i as int).contains_key(k));
                }
            }
        }
        self.positions.insert(strategy_id as u128, positions);
        proof {
            if old_b.positions@.contains_key(strategy_id as u128) {
                assert(keys0 == ks);
            }
            assert forall|sid: u64| sid != strategy_id implies #[trigger] self.positions_of(sid) == old_b.positions_of(sid) by {
                assert(sid as u128 != strategy_id as u128);
            }
            assert forall|sid: u128, k: u128| #[trigger] self.positions@.contains_key(sid) && #[trigger] self.positions@[sid]@.contains_key(k) implies
                k <= u32::MAX && self.positions@[sid]@[k].asset_pair.base == k by {
                if sid != strategy_id as u128 {
                    assert(old_b.positions@.contains_key(sid) && old_b.positions@[sid]@.contains_key(k));
                } else {
                    assert(m0.contains_key(k));
                    assert(old_b.positions@.contains_key(sid) && old_b.positions@[sid]@.contains_key(k));
                }
            }
        }
        Ok(closed)
    }

    /// With ranking enabled, closes the strategy's positions whose pair is
    /// not among the first `top_n` of the ranking.
    pub fn rebalance_by_momentum_rank(&mut self, strategy_id: u64, ranked_assets: &Vec<(AssetPair, i128)>, top_n: usize) -> (r: Result<(), AutoTradeError>)
        requires
            old(self).wf(),
        ensures
            final(self).wf(),
            final(self).strategies@ == old(self).strategies@,
            final(self).snapshots@ == old(self).snapshots@,
            !old(self).strategies@.contains_key(strategy_id as u128) ==> r == Err::<(), AutoTradeError>(AutoTradeError::StrategyNotFound)
                && final(self).positions@ == old(self).positions@,
            (old(self).strategies@.contains_key(strategy_id as u128) && !old(self).strategies@[strategy_id as u128].ranking_enabled)
                ==> r is Ok && final(self).positions@ == old(self).positions@,
            (old(self).strategies@.contains_key(strategy_id as u128) && old(self).strategies@[strategy_id as u128].ranking_enabled) ==> {
                let m = old(self).positions_of(strategy_id);
                &&& r is Ok
                &&& final(self).positions_of(strategy_id) == Map::new(
                    |k: u128| m.contains_key(k) && in_top(ranked_assets@, top_n as int, m[k].asset_pair), |k: u128| m[k])
                &&& forall|sid: u64| sid != strategy_id ==> #[trigger] final(self).positions_of(sid) == old(self).positions_of(sid)
            },
    {
        let enabled = match self.strategies.get(strategy_id as u128) {
            Some(s) => s.ranking_enabled,
            None => return Err(AutoTradeError::StrategyNotFound),
        };
        if !enabled {
            return Ok(());
        }
        let ghost old_b = *old(self);
        let ghost m0 = old_b.positions_of(strategy_id);
        let ghost target = Map::new(|k: u128| m0.contains_key(k) && in_top(ranked_assets@, top_n as int, m0[k].asset_pair), |k: u128| m0[k]);
        let count = if top_n < ranked_assets.len() { top_n } else { ranked_assets.len() };
        let mut top_assets: Vec<AssetPair> = Vec::new();
        let mut i: usize = 0;
        while i < count
            invariant
                count <= ranked_assets@.len(),
                count == (if top_n < ranked_assets@.len() { top_n as int } else { ranked_assets@.len() as int }),
                i <= count,
                top_assets@.len() == i,
                forall|j: int| 0 <= j < i ==> #[trigger] top_assets@[j] == ranked_assets@[j].0,
            decreases count - i,
        {
            top_assets.push(ranked_assets[i].0);
            i = i + 1;
        }
        let mut positions = self.take_positions(strategy_id);
        let n = positions.len();
        let mut keys: Vec<u128> = Vec::new();
        let mut i: usize = 0;
        while i < n
            invariant
                n == positions.key_seq().len(),
                i <= n,
                keys@ == positions.key_seq().take(i as int),
            decreases n - i,
        {
            let k = positions.key_at(i);
            keys.push(k);
            i = i + 1;
            proof { assert(keys@ =~= positions.key_seq().take(i as int)); }
        }
        proof {
            assert(keys@ =~= positions.key_seq());
            assert forall|j: int| 0 <= j < keys@.len() implies #[trigger] positions@.contains_key(keys@[j]) by {
                assert(positions.key_seq()[j] == keys@[j]);
                assert(positions.key_seq().contains(keys@[j]));
            }
        }
        let mut i: usize = 0;
        while i < keys.len()
            invariant
                i <= keys@.len(),
                target == Map::new(|k: u128| m0.contains_key(k) && in_top(ranked_assets@, top_n as int, m0[k].asset_pair), |k: u128| m0[k]),
                forall|k: u128| m0.contains_key(k) <==> keys@.contains(k),
                forall|a: int, b: int| 0 <= a < b < keys@.len() ==> #[trigger] keys@[a] < #[trigger] keys@[b],
                top_assets@.len() == count,
                count == (if top_n < ranked_assets@.len() { top_n as int } else { ranked_assets@.len() as int }),
                forall|j: int| 0 <= j < count ==> #[trigger] top_assets@[j] == ranked_assets@[j].0,
                forall|k: u128| #[trigger] positions@.contains_key(k) ==> m0.contains_key(k) && positions@[k] == m0[k],
                forall|j: int| 0 <= j < i ==> (#[trigger] positions@.contains_key(keys@[j]) <==> target.contains_key(keys@[j])),
                forall|j: int| i <= j < keys@.len() ==> #[trigger] positions@.contains_key(keys@[j]),
            decreases keys@.len() - i,
        {
            let key = keys[i];
            let pair = match positions.get(key) {
                Some(p) => p.asset_pair,
                None => { proof { assert(false); } AssetPair { base: 0, quote: 0 } },
            };
            let mut found = false;
            let mut j: usize = 0;
            while j < top_assets.len()
                invariant
                    j <= top_assets@.len(),
                    found ==> exists|t: int| 0 <= t < j && #[trigger] top_assets@[t] == pair,
                    !found ==> forall|t: int| 0 <= t < j ==> #[trigger] top_assets@[t] != pair,
                decreases top_assets@.len() - j,
            {
                if top_assets[j] == pair {
                    proof { assert(top_assets@[j as int] == pair); }
                    found = true;
                }
                j = j + 1;
            }
            proof {
                if found {
                    let t = choose|t: int| 0 <= t < j && #[trigger] top_assets@[t] == pair;
                    assert(ranked_assets@[t].0 == pair);
                    assert(in_top(ranked_assets@, top_n as int, pair));
                } else {
                    assert forall|t: int| 0 <= t < top_n && t < ranked_assets@.len() implies #[trigger] ranked_assets@[t].0 != pair by {
                        assert(top_assets@[t] != pair);
                    }
                }
            }
            if !found {
                positions.remove(key);
            }
            proof {
                assert forall|a: int| 0 <= a < i + 1 implies (#[trigger] positions@.contains_key(keys@[a]) <==> target.contains_key(keys@[a])) by {
                    if a < i { assert(keys@[a] != key); }
                }
                assert forall|a: int| i + 1 <= a < keys@.len() implies #[trigger] positions@.contains_key(keys@[a]) by {
                    assert(keys@[a] != key);
                }
            }
            i = i + 1;
        }
        proof {
            assert forall|k: u128| #[trigger] positions@.contains_key(k) == target.contains_key(k) by {
                if m0.contains_key(k) {
                    assert(keys@.contains(k));
                    let a = choose|a: int| 0 <= a < keys@.len() && keys@[a] == k;
                    assert(positions@.contains_key(keys@[a]) <==> target.contains_key(keys@[a]));
                }
            }
            assert(positions@ =~= target);
        }
        self.positions.insert(strategy_id as u128, positions);
        proof {
            assert forall|sid: u64| sid != strategy_id implies #[trigger] self.positions_of(sid) == old_b.positions_of(sid) by {
                assert(sid as u128 != strategy_id as u128);
            }
            assert forall|sid: u128, k: u128| #[trigger] self.positions@.contains_key(sid) && #[trigger] self.positions@[sid]@.contains_key(k) implies
                k <= u32::MAX && self.positions@[sid]@[k].asset_pair.base == k by {
                if sid != strategy_id as u128 {
                    assert(old_b.positions@.contains_key(sid) && old_b.positions@[sid]@.contains_key(k));
                } else {
                    assert(m0.contains_key(k));
                    assert(old_b.positions@.contains_key(sid) && old_b.positions@[sid]@.contains_key(k));
                }
            }
        }
        Ok(())
    }

    /// Records a price snapshot of a pair at a time.
    pub fn store_price_snapshot(&mut self, asset_pair: AssetPair, price: i128, timestamp: u64)
        ensures
            final(self).snapshots@ == old(self).snapshots@.insert(snapshot_key(asset_pair, timestamp), price),
            final(self).strategies@ == old(self).strategies@,
            final(self).positions@ == old(self).positions@,
    {
        let key: u128 = (asset_pair.base as u128) * 0x1_0000_0000_0000_0000_0000_0000u128
            + (asset_pair.quote as u128) * 0x1_0000_0000_0000_0000u128 + timestamp as u128;
        self.snapshots.insert(key, price);
    }

    /// The prices of a pair over a period: the snapshots are not searched,
    /// so the list is empty.
    pub fn get_historical_prices(&self, _asset_pair: AssetPair, _period_seconds: u64) -> (r: Result<Vec<i128>, AutoTradeError>)
        ensures
            r matches Ok(v) && v@.len() == 0,
    {
        Ok(Vec::new())
    }
}

}
