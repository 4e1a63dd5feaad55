//! Mean reversion: trade against prices that stray far from their mean (by
//! z-score) and close when they come back, hit a stop, or calm down.
use vstd::prelude::*;
use crate::errors::AutoTradeError;
use crate::math::{in_i128, tdiv, abs, div_toward_zero, sqrt_result, newton_isqrt};
use crate::store::OrdMap;
use crate::strategies::stat_arb::{isqrt_spec, lemma_sqrt_unique};
use crate::AccountId;

verus! {

/// Scale of z-scores (10_000 = 1.0).
pub const PRECISION: i128 = 10_000;
/// Fewest prices a statistic is computed from.
pub const MIN_PRICES: usize = 30;

#[derive(Clone, Copy, Debug, PartialEq, Eq, Structural)]
pub enum TradeDirection {
    Buy,
    Sell,
}

#[derive(Clone, Copy, Debug, PartialEq, Eq, Structural)]
pub enum PositionStatus {
    Open,
    Closed,
}

/// A mean-reversion position.
#[derive(Clone, Copy, Debug, PartialEq, Eq, Structural)]
pub struct ReversionPosition {
    pub position_id: u64,
    pub entry_price: i128,
    pub entry_z_score: i128,
    pub entry_time: u64,
    pub mean_at_entry: i128,
    pub target_price: i128,
    pub stop_loss: i128,
    pub amount: i128,
    pub direction: TradeDirection,
    pub status: PositionStatus,
}

/// A mean-reversion strategy.
#[derive(Debug)]
pub struct MeanReversionStrategy {
    pub user: AccountId,
    pub asset_pair: u32,
    pub lookback_period_days: u32,
    /// Z-score at which to enter, scaled by `PRECISION`.
    pub entry_z_score: i128,
    /// Z-score under which to exit, scaled by `PRECISION`.
    pub exit_z_score: i128,
    /// Position size in basis points of the portfolio.
    pub position_size_pct: u32,
    pub max_positions: u32,
    pub active_positions: Vec<ReversionPosition>,
    pub enabled: bool,
}

/// The statistics of an asset's recent prices.
#[derive(Clone, Copy, Debug, PartialEq, Eq, Structural)]
pub struct StatisticalMetrics {
    pub mean: i128,
    pub std_dev: i128,
    pub current_price: i128,
    pub z_score: i128,
}

/// A trade suggested by a strategy.
#[derive(Clone, Copy, Debug, PartialEq, Eq, Structural)]
pub struct ReversionSignal {
    pub direction: TradeDirection,
    pub entry_price: i128,
    pub z_score: i128,
    pub mean: i128,
    pub target_price: i128,
    pub stop_loss: i128,
    pub confidence: u32,
}

/// The book's persistent slots.
#[derive(Clone, Copy, Debug, PartialEq, Eq, Structural)]
pub enum MRKey {
    Strategy(u64),
    NextStrategyId,
    NextPositionId,
    ActiveIds,
}

/// The sum of a list of prices.
pub open spec fn price_sum(s: Seq<i128>) -> int
    decreases s.len(),
{
    if s.len() == 0 { 0 } else { price_sum(s.drop_last()) + s.last() }
}

/// The sum of squared deviations from `mean`.
pub open spec fn dev_sum(s: Seq<i128>, mean: int) -> int
    decreases s.len(),
{
    if s.len() == 0 { 0 } else { dev_sum(s.drop_last(), mean) + (s.last() - mean) * (s.last() - mean) }
}

/// The population variance around `mean`, rounded down.
pub open spec fn variance_of(s: Seq<i128>, mean: int) -> int {
    dev_sum(s, mean) / (s.len() as int)
}

/// The mean of the prices, rounded toward zero.
pub open spec fn mean_of(s: Seq<i128>) -> int {
    tdiv(price_sum(s), s.len() as int)
}

/// The arithmetic of the statistics stays within `i128`.
pub open spec fn stats_fit(s: Seq<i128>, current: i128) -> bool {
    let mean = mean_of(s);
    &&& forall|k: int| 0 <= k <= s.len() ==> in_i128(#[trigger] price_sum(s.take(k)))
    &&& forall|i: int| 0 <= i < s.len() ==> in_i128(#[trigger] s[i] - mean) && in_i128((s[i] - mean) * (s[i] - mean))
    &&& forall|k: int| 0 <= k <= s.len() ==> #[trigger] dev_sum(s.take(k), mean) < i128::MAX
    &&& in_i128(current - mean)
    &&& in_i128((current - mean) * PRECISION)
}

/// The statistics of `s` with current price `current`, or why there are
/// none: too few prices, or no spread.
pub open spec fn metrics_of(s: Seq<i128>, current: i128, std: int) -> Result<StatisticalMetrics, AutoTradeError> {
    let mean = mean_of(s);
    if std == 0 {
        Err(AutoTradeError::MrLowVolatility)
    } else {
        Ok(StatisticalMetrics {
            mean: mean as i128,
            std_dev: std as i128,
            current_price: current,
            z_score: tdiv((current - mean) * PRECISION, std) as i128,
        })
    }
}

/// Confidence of a signal from the size of its z-score.
pub open spec fn confidence_of(z: int) -> u32 {
    let za = abs(z);
    if za > 30_000 { 9_000 } else if za > 25_000 { 8_000 } else if za > 20_000 { 7_000 } else if za > 15_000 { 6_000 } else { 5_000 }
}

/// Confidence of a signal.
pub fn reversion_confidence(metrics: &StatisticalMetrics) -> (r: u32)
    requires
        metrics.z_score > i128::MIN,
    ensures
        r == confidence_of(metrics.z_score as int),
{
    let z_abs = if metrics.z_score < 0 { -metrics.z_score } else { metrics.z_score };
    if z_abs > 30_000 { 9_000 }
    else if z_abs > 25_000 { 8_000 }
    else if z_abs > 20_000 { 7_000 }
    else if z_abs > 15_000 { 6_000 }
    else { 5_000 }
}

/// The signal for statistics whose z-score reaches the entry threshold:
/// sell when above the mean, buy when at or below it, targeting the mean
/// with a stop three standard deviations away.
pub open spec fn signal_of(m: StatisticalMetrics) -> ReversionSignal {
    if m.z_score > 0 {
        ReversionSignal {
            direction: TradeDirection::Sell, entry_price: m.current_price, z_score: m.z_score, mean: m.mean,
            target_price: m.mean, stop_loss: (m.current_price + m.std_dev * 3) as i128, confidence: confidence_of(m.z_score as int),
        }
    } else {
        ReversionSignal {
            direction: TradeDirection::Buy, entry_price: m.current_price, z_score: m.z_score, mean: m.mean,
            target_price: m.mean, stop_loss: (m.current_price - m.std_dev * 3) as i128, confidence: confidence_of(m.z_score as int),
        }
    }
}

/// The profit of closing a position at `exit_price`, relative to its entry.
pub open spec fn pnl_of(p: ReversionPosition, exit_price: int) -> int {
    match p.direction {
        TradeDirection::Sell => tdiv((p.entry_price - exit_price) * p.amount, p.entry_price as int),
        TradeDirection::Buy => tdiv((exit_price - p.entry_price) * p.amount, p.entry_price as int),
    }
}

/// Whether `pnl_of` can be computed.
pub open spec fn pnl_fits(p: ReversionPosition, exit_price: int) -> bool {
    let d = match p.direction { TradeDirection::Sell => p.entry_price - exit_price, TradeDirection::Buy => exit_price - p.entry_price };
    &&& p.entry_price != 0
    &&& in_i128(d)
    &&& in_i128(d * p.amount)
    &&& !(d * p.amount == i128::MIN && p.entry_price == -1)
}

/// The profit of closing a position at `exit_price`.
pub fn calculate_pnl(pos: &ReversionPosition, exit_price: i128) -> (r: i128)
    requires
        pnl_fits(*pos, exit_price as int),
    ensures
        r == pnl_of(*pos, exit_price as int),
{
    match pos.direction {
        TradeDirection::Sell => div_toward_zero((pos.entry_price - exit_price) * pos.amount, pos.entry_price),
        TradeDirection::Buy => div_toward_zero((exit_price - pos.entry_price) * pos.amount, pos.entry_price),
    }
}

/// Whether an open position exits at `price` and z-score `z`: its target
/// or its stop is reached, or the z-score is back within the exit band.
pub open spec fn exits_at(p: ReversionPosition, price: int, z: int, exit_z: int) -> bool {
    let target_hit = match p.direction { TradeDirection::Sell => price <= p.target_price, TradeDirection::Buy => price >= p.target_price };
    let stop_hit = match p.direction { TradeDirection::Sell => price >= p.stop_loss, TradeDirection::Buy => price <= p.stop_loss };
    p.status == PositionStatus::Open && (target_hit || stop_hit || abs(z) <= exit_z)
}

/// The positions after the exits at `price` and `z`.
pub open spec fn after_exits(ps: Seq<ReversionPosition>, price: int, z: int, exit_z: int) -> Seq<ReversionPosition> {
    Seq::new(ps.len(), |i: int| if exits_at(ps[i], price, z, exit_z) { ReversionPosition { status: PositionStatus::Closed, ..ps[i] } } else { ps[i] })
}

/// The ids of the positions that exit, in order.
pub open spec fn exit_ids(ps: Seq<ReversionPosition>, price: int, z: int, exit_z: int) -> Seq<u64>
    decreases ps.len(),
{
    if ps.len() == 0 {
        Seq::empty()
    } else {
        let prev = exit_ids(ps.drop_last(), price, z, exit_z);
        if exits_at(ps.last(), price, z, exit_z) { prev.push(ps.last().position_id) } else { prev }
    }
}

/// The number of open positions.
pub open spec fn open_count(ps: Seq<ReversionPosition>) -> int
    decreases ps.len(),
{
    if ps.len() == 0 { 0 } else { open_count(ps.drop_last()) + if ps.last().status == PositionStatus::Open { 1int } else { 0 } }
}

/// A strategy as a value.
pub struct MrView {
    pub user: AccountId,
    pub asset_pair: u32,
    pub lookback_period_days: u32,
    pub entry_z_score: i128,
    pub exit_z_score: i128,
    pub position_size_pct: u32,
    pub max_positions: u32,
    pub active_positions: Seq<ReversionPosition>,
    pub enabled: bool,
}

impl MeanReversionStrategy {
    pub open spec fn view(&self) -> MrView {
        MrView {
            user: self.user,
            asset_pair: self.asset_pair,
            lookback_period_days: self.lookback_period_days,
            entry_z_score: self.entry_z_score,
            exit_z_score: self.exit_z_score,
            position_size_pct: self.position_size_pct,
            max_positions: self.max_positions,
            active_positions: self.active_positions@,
            enabled: self.enabled,
        }
    }

    pub fn duplicate(&self) -> (r: Self)
        ensures
            r@ == self@,
    {
        MeanReversionStrategy {
            user: self.user,
            asset_pair: self.asset_pair,
            lookback_period_days: self.lookback_period_days,
            entry_z_score: self.entry_z_score,
            exit_z_score: self.exit_z_score,
            position_size_pct: self.position_size_pct,
            max_positions: self.max_positions,
            active_positions: self.active_positions.clone(),
            enabled: self.enabled,
        }
    }
}

/// The strategies as values.
pub open spec fn mr_views(m: Map<u128, MeanReversionStrategy>) -> Map<u128, MrView> {
    m.map_values(|s: MeanReversionStrategy| s@)
}

/// The key of an asset's history over a lookback window.
pub open spec fn history_key(asset: u32, lookback_seconds: u64) -> u128 {
    (asset as int * 0x1_0000_0000_0000_0000 + lookback_seconds as int) as u128
}

/// Strategies, ids, and the price data they read: histories by asset and
/// window, current prices, and users' portfolio values.
pub struct MeanReversionBook {
    pub strategies: OrdMap<MeanReversionStrategy>,
    pub next_strategy_id: u64,
    pub next_position_id: u64,
    pub active_ids: Vec<u64>,
    pub histories: OrdMap<Vec<i128>>,
    pub prices: OrdMap<i128>,
    pub balances: OrdMap<i128>,
}


impl MeanReversionBook {
    /// The stored history of an asset over a window, if any.
    pub open spec fn history(&self, asset: u32, lookback_days: u32) -> Option<Seq<i128>> {
        let key = history_key(asset, (lookback_days * 86_400) as u64);
        if self.histories@.contains_key(key) { Some(self.histories@[key]@) } else { None }
    }

    pub open spec fn price_opt(&self, asset: u32) -> Option<i128> {
        if self.prices@.contains_key(asset as u128) { Some(self.prices@[asset as u128]) } else { None }
    }

    /// The statistics of an asset over a window, or why there are none.
    pub open spec fn stats(&self, asset: u32, lookback_days: u32) -> Result<StatisticalMetrics, AutoTradeError> {
        match self.history(asset, lookback_days) {
            None => Err(AutoTradeError::MrInsufficientHistory),
            Some(s) => if s.len() < MIN_PRICES {
                Err(AutoTradeError::MrInsufficientHistory)
            } else {
                let std = isqrt_spec(variance_of(s, mean_of(s)));
                if std == 0 {
                    Err(AutoTradeError::MrLowVolatility)
                } else {
                    match self.price_opt(asset) {
                        None => Err(AutoTradeError::MrInsufficientHistory),
                        Some(cur) => metrics_of(s, cur, std),
                    }
                }
            },
        }
    }

    /// The statistics of an asset over a window can be computed.
    pub open spec fn stats_ok(&self, asset: u32, lookback_days: u32) -> bool {
        match self.history(asset, lookback_days) {
            None => true,
            Some(s) => s.len() >= MIN_PRICES ==> s.len() < i128::MAX && stats_fit(s, match self.price_opt(asset) { Some(c) => c, None => 0 }),
        }
    }

    /// Mean, standard deviation and z-score of the current price over the
    /// stored history (at least 30 prices, some spread).
    pub fn calculate_statistical_metrics(&self, asset_pair: u32, lookback_days: u32) -> (r: Result<StatisticalMetrics, AutoTradeError>)
        requires
            self.stats_ok(asset_pair, lookback_days),
        ensures
            r == self.stats(asset_pair, lookback_days),
    {
        let lookback_seconds: u64 = lookback_days as u64 * 86_400;
        let key: u128 = (asset_pair as u128) * 0x1_0000_0000_0000_0000u128 + lookback_seconds as u128;
        let prices = match self.histories.get(key) {
            Some(v) => v,
            None => return Err(AutoTradeError::MrInsufficientHistory),
        };
        if prices.len() < MIN_PRICES {
            return Err(AutoTradeError::MrInsufficientHistory);
        }
        let ghost s = prices@;
        let n = prices.len() as i128;
        let mut sum: i128 = 0;
        let mut i: usize = 0;
        while i < prices.len()
            invariant
                i <= s.len(),
                s == prices@,
                sum == price_sum(s.take(i as int)),
                forall|k: int| 0 <= k <= s.len() ==> in_i128(#[trigger] price_sum(s.take(k))),
            decreases s.len() - i,
        {
            proof {
                assert(s.take(i as int + 1).drop_last() =~= s.take(i as int));
                assert(in_i128(price_sum(s.take(i as int + 1))));
            }
            sum = sum + prices[i];
            i = i + 1;
        }
        proof { assert(s.take(s.len() as int) =~= s); }
        let mean = div_toward_zero(sum, n);
        let ghost cur0 = match self.price_opt(asset_pair) { Some(c) => c, None => 0 };
        let mut variance: i128 = 0;
        let mut i: usize = 0;
        while i < prices.len()
            invariant
                i <= s.len(),
                s == prices@,
                n == s.len(),
                n >= 30,
                mean == mean_of(s),
                stats_fit(s, cur0),
                variance == dev_sum(s.take(i as int), mean as int),
                variance >= 0,
            decreases s.len() - i,
        {
            proof {
                assert(s.take(i as int + 1).drop_last() =~= s.take(i as int));
                assert(in_i128(s[i as int] - mean));
                assert(dev_sum(s.take(i as int + 1), mean as int) < i128::MAX);
                let d = s[i as int] - mean;
                assert(d * d >= 0) by (nonlinear_arith);
            }
            let diff = prices[i] - mean;
            variance = variance + diff * diff;
            i = i + 1;
        }
        proof { assert(s.take(s.len() as int) =~= s); }
        let variance: i128 = variance / n;
        let std_dev: i128 = if variance <= 0 { 0 } else { newton_isqrt(variance) };
        proof {
            assert(dev_sum(s.take(s.len() as int), mean as int) < i128::MAX);
            assert(sqrt_result(variance as int, std_dev as int));
            assert(sqrt_result(variance as int, isqrt_spec(variance as int))) by {
                assert(sqrt_result(variance as int, std_dev as int));
            }
            lemma_sqrt_unique(variance as int, std_dev as int, isqrt_spec(variance as int));
        }
        if std_dev == 0 {
            return Err(AutoTradeError::MrLowVolatility);
        }
        let current_price = match self.prices.get(asset_pair as u128) {
            Some(p) => *p,
            None => return Err(AutoTradeError::MrInsufficientHistory),
        };
        let z_score = div_toward_zero((current_price - mean) * PRECISION, std_dev);
        Ok(StatisticalMetrics { mean: mean, std_dev: std_dev, current_price: current_price, z_score: z_score })
    }
}


/// The signal a strategy gives on statistics, if any.
pub open spec fn signal_for(v: MrView, m: StatisticalMetrics) -> Option<ReversionSignal> {
    if abs(m.z_score as int) < v.entry_z_score { None } else { Some(signal_of(m)) }
}

/// The last (up to) 20 positions that are closed, in order.
pub open spec fn recent_closed(ps: Seq<ReversionPosition>) -> Seq<ReversionPosition> {
    let start = if ps.len() > 20 { ps.len() - 20 } else { 0 };
    ps.subrange(start, ps.len() as int).filter(|p: ReversionPosition| p.status == PositionStatus::Closed)
}

/// How many positions would show a profit at `price`.
pub open spec fn win_count(ps: Seq<ReversionPosition>, price: int) -> int
    decreases ps.len(),
{
    if ps.len() == 0 { 0 } else { win_count(ps.drop_last(), price) + if pnl_of(ps.last(), price) > 0 { 1int } else { 0 } }
}

/// The entry threshold after a success rate (in percent): tightened
/// (raised by 0.1, up to 3.0) below 40%, loosened (lowered by 0.05, down to
/// 1.5) above 60%.
pub open spec fn adjusted_entry(entry: int, success_rate: int) -> int {
    if success_rate < 40 {
        if entry + 1_000 < 30_000 { entry + 1_000 } else { 30_000 }
    } else if success_rate > 60 {
        if entry - 500 > 15_000 { entry - 500 } else { 15_000 }
    } else {
        entry
    }
}

impl MeanReversionBook {
    pub fn new() -> (r: Self)
        ensures
            r.strategies@ == Map::<u128, MeanReversionStrategy>::empty(),
            r.next_strategy_id == 0,
            r.next_position_id == 0,
            r.active_ids@ == Seq::<u64>::empty(),
            r.histories@ == Map::<u128, Vec<i128>>::empty(),
            r.prices@ == Map::<u128, i128>::empty(),
            r.balances@ == Map::<u128, i128>::empty(),
    {
        MeanReversionBook {
            strategies: OrdMap::new(), next_strategy_id: 0, next_position_id: 0, active_ids: Vec::new(),
            histories: OrdMap::new(), prices: OrdMap::new(), balances: OrdMap::new(),
        }
    }

    /// Stores an asset's price history over a window.
    pub fn set_history(&mut self, asset: u32, lookback_seconds: u64, prices: Vec<i128>)
        ensures
            final(self).histories@ == old(self).histories@.insert(history_key(asset, lookback_seconds), prices),
            mr_views(final(self).strategies@) == mr_views(old(self).strategies@),
            final(self).prices@ == old(self).prices@,
            final(self).balances@ == old(self).balances@,
    {
        let key: u128 = (asset as u128) * 0x1_0000_0000_0000_0000u128 + lookback_seconds as u128;
        self.histories.insert(key, prices);
    }

    /// Sets an asset's current price.
    pub fn set_price(&mut self, asset: u32, price: i128)
        ensures
            final(self).prices@ == old(self).prices@.insert(asset as u128, price),
            final(self).histories@ == old(self).histories@,
            final(self).strategies@ == old(self).strategies@,
            final(self).balances@ == old(self).balances@,
    {
        self.prices.insert(asset as u128, price);
    }

    /// Sets a user's portfolio value.
    pub fn set_balance(&mut self, user: AccountId, value: i128)
        ensures
            final(self).balances@ == old(self).balances@.insert(user as u128, value),
            final(self).histories@ == old(self).histories@,
            final(self).strategies@ == old(self).strategies@,
            final(self).prices@ == old(self).prices@,
    {
        self.balances.insert(user as u128, value);
    }

    /// Creates an enabled strategy; every parameter must be positive.
    pub fn create_mean_reversion_strategy(&mut self, user: AccountId, asset_pair: u32, lookback_period_days: u32,
        entry_z_score: i128, exit_z_score: i128, position_size_pct: u32, max_positions: u32) -> (r: Result<u64, AutoTradeError>)
        requires
            old(self).next_strategy_id < u64::MAX,
        ensures
            (entry_z_score <= 0 || exit_z_score <= 0 || position_size_pct == 0 || max_positions == 0) ==>
                r == Err::<u64, AutoTradeError>(AutoTradeError::InvalidAmount) && final(self).strategies@ == old(self).strategies@
                && final(self).next_strategy_id == old(self).next_strategy_id && final(self).active_ids@ == old(self).active_ids@,
            !(entry_z_score <= 0 || exit_z_score <= 0 || position_size_pct == 0 || max_positions == 0) ==> {
                let id = old(self).next_strategy_id;
                &&& r == Ok::<u64, AutoTradeError>(id)
                &&& final(self).next_strategy_id == id + 1
                &&& final(self).active_ids@ == old(self).active_ids@.push(id)
                &&& mr_views(final(self).strategies@) == mr_views(old(self).strategies@).insert(id as u128, MrView {
                    user: user, asset_pair: asset_pair, lookback_period_days: lookback_period_days,
                    entry_z_score: entry_z_score, exit_z_score: exit_z_score, position_size_pct: position_size_pct,
                    max_positions: max_positions, active_positions: Seq::empty(), enabled: true,
                })
            },
            final(self).next_position_id == old(self).next_position_id,
            final(self).histories@ == old(self).histories@,
            final(self).prices@ == old(self).prices@,
            final(self).balances@ == old(self).balances@,
    {
        if entry_z_score <= 0 || exit_z_score <= 0 || position_size_pct == 0 || max_positions == 0 {
            return Err(AutoTradeError::InvalidAmount);
        }
        let id = self.next_strategy_id;
        self.next_strategy_id = id + 1;
        let strategy = MeanReversionStrategy {
            user: user, asset_pair: asset_pair, lookback_period_days: lookback_period_days,
            entry_z_score: entry_z_score, exit_z_score: exit_z_score, position_size_pct: position_size_pct,
            max_positions: max_positions, active_positions: Vec::new(), enabled: true,
        };
        self.strategies.insert(id as u128, strategy);
        self.active_ids.push(id);
        proof { assert(mr_views(self.strategies@) =~= mr_views(old(self).strategies@).insert(id as u128, self.strategies@[id as u128]@)); }
        Ok(id)
    }

    /// A copy of a strategy.
    pub fn get_mean_reversion_strategy(&self, id: u64) -> (r: Result<MeanReversionStrategy, AutoTradeError>)
        ensures
            match r {
                Ok(s) => self.strategies@.contains_key(id as u128) && s@ == self.strategies@[id as u128]@,
                Err(e) => !self.strategies@.contains_key(id as u128) && e == AutoTradeError::MrStrategyNotFound,
            },
    {
        match self.strategies.get(id as u128) {
            Some(s) => Ok(s.duplicate()),
            None => Err(AutoTradeError::MrStrategyNotFound),
        }
    }

    fn set_enabled(&mut self, id: u64, enabled: bool) -> (r: Result<(), AutoTradeError>)
        ensures
            !old(self).strategies@.contains_key(id as u128) ==> r == Err::<(), AutoTradeError>(AutoTradeError::MrStrategyNotFound)
                && final(self).strategies@ == old(self).strategies@,
            old(self).strategies@.contains_key(id as u128) ==> r is Ok && mr_views(final(self).strategies@)
                == mr_views(old(self).strategies@).insert(id as u128, MrView { enabled: enabled, ..old(self).strategies@[id as u128]@ }),
            final(self).next_strategy_id == old(self).next_strategy_id,
            final(self).next_position_id == old(self).next_position_id,
            final(self).active_ids@ == old(self).active_ids@,
            final(self).histories@ == old(self).histories@,
            final(self).prices@ == old(self).prices@,
            final(self).balances@ == old(self).balances@,
    {
        let mut s = match self.strategies.remove(id as u128) {
            Some(s) => s,
            None => return Err(AutoTradeError::MrStrategyNotFound),
        };
        s.enabled = enabled;
        self.strategies.insert(id as u128, s);
        proof { assert(mr_views(self.strategies@) =~= mr_views(old(self).strategies@).insert(id as u128, self.strategies@[id as u128]@)); }
        Ok(())
    }

    pub fn disable_mean_reversion_strategy(&mut self, id: u64) -> (r: Result<(), AutoTradeError>)
        ensures
            !old(self).strategies@.contains_key(id as u128) ==> r == Err::<(), AutoTradeError>(AutoTradeError::MrStrategyNotFound)
                && final(self).strategies@ == old(self).strategies@,
            old(self).strategies@.contains_key(id as u128) ==> r is Ok && mr_views(final(self).strategies@)
                == mr_views(old(self).strategies@).insert(id as u128, MrView { enabled: false, ..old(self).strategies@[id as u128]@ }),
    {
        self.set_enabled(id, false)
    }

    pub fn enable_mean_reversion_strategy(&mut self, id: u64) -> (r: Result<(), AutoTradeError>)
        ensures
            !old(self).strategies@.contains_key(id as u128) ==> r == Err::<(), AutoTradeError>(AutoTradeError::MrStrategyNotFound)
                && final(self).strategies@ == old(self).strategies@,
            old(self).strategies@.contains_key(id as u128) ==> r is Ok && mr_views(final(self).strategies@)
                == mr_views(old(self).strategies@).insert(id as u128, MrView { enabled: true, ..old(self).strategies@[id as u128]@ }),
    {
        self.set_enabled(id, true)
    }

    /// The signal of an enabled strategy: when the current price's
    /// z-score reaches the entry threshold.
    pub fn check_mean_reversion_signals(&self, strategy_id: u64) -> (r: Result<Option<ReversionSignal>, AutoTradeError>)
        requires
            self.strategies@.contains_key(strategy_id as u128) ==> {
                let v = self.strategies@[strategy_id as u128]@;
                v.enabled ==> self.stats_ok(v.asset_pair, v.lookback_period_days)
                    && (self.stats(v.asset_pair, v.lookback_period_days) matches Ok(m)
                        ==> m.z_score > i128::MIN && in_i128(m.std_dev * 3) && in_i128(m.current_price + m.std_dev * 3)
                            && in_i128(m.current_price - m.std_dev * 3))
            },
        ensures
            !self.strategies@.contains_key(strategy_id as u128) ==> r == Err::<Option<ReversionSignal>, AutoTradeError>(AutoTradeError::MrStrategyNotFound),
            self.strategies@.contains_key(strategy_id as u128) ==> {
                let v = self.strategies@[strategy_id as u128]@;
                r == (if !v.enabled {
                    Ok(None)
                } else {
                    match self.stats(v.asset_pair, v.lookback_period_days) {
                        Err(e) => Err(e),
                        Ok(m) => Ok(signal_for(v, m)),
                    }
                })
            },
    {
        let strategy = match self.strategies.get(strategy_id as u128) {
            Some(s) => s,
            None => return Err(AutoTradeError::MrStrategyNotFound),
        };
        if !strategy.enabled {
            return Ok(None);
        }
        let metrics = self.calculate_statistical_metrics(strategy.asset_pair, strategy.lookback_period_days)?;
        let z_abs = if metrics.z_score < 0 { -metrics.z_score } else { metrics.z_score };
        if z_abs < strategy.entry_z_score {
            return Ok(None);
        }
        let confidence = reversion_confidence(&metrics);
        let signal = if metrics.z_score > 0 {
            ReversionSignal {
                direction: TradeDirection::Sell, entry_price: metrics.current_price, z_score: metrics.z_score,
                mean: metrics.mean, target_price: metrics.mean, stop_loss: metrics.current_price + (metrics.std_dev * 3),
                confidence: confidence,
            }
        } else {
            ReversionSignal {
                direction: TradeDirection::Buy, entry_price: metrics.current_price, z_score: metrics.z_score,
                mean: metrics.mean, target_price: metrics.mean, stop_loss: metrics.current_price - (metrics.std_dev * 3),
                confidence: confidence,
            }
        };
        Ok(Some(signal))
    }
}


/// The number of open positions, by a scan.
fn count_open(ps: &Vec<ReversionPosition>) -> (r: usize)
    ensures
        r == open_count(ps@),
{
    let mut count: usize = 0;
    let mut i: usize = 0;
    while i < ps.len()
        invariant
            i <= ps@.len(),
            count == open_count(ps@.take(i as int)),
            count <= i,
        decreases ps@.len() - i,
    {
        proof { assert(ps@.take(i as int + 1).drop_last() =~= ps@.take(i as int)); }
        if ps[i].status == PositionStatus::Open {
            count = count + 1;
        }
        i = i + 1;
    }
    proof { assert(ps@.take(ps@.len() as int) =~= ps@); }
    count
}

/// The position opened for a signal.
pub open spec fn position_for(id: u64, signal: ReversionSignal, now: u64, amount: int) -> ReversionPosition {
    ReversionPosition {
        position_id: id, entry_price: signal.entry_price, entry_z_score: signal.z_score, entry_time: now,
        mean_at_entry: signal.mean, target_price: signal.target_price, stop_loss: signal.stop_loss,
        amount: amount as i128, direction: signal.direction, status: PositionStatus::Open,
    }
}

impl MeanReversionBook {
    pub open spec fn balance_of(&self, user: AccountId) -> i128 {
        if self.balances@.contains_key(user as u128) { self.balances@[user as u128] } else { 0 }
    }

    /// Opens a position on a signal, sized at the strategy's share of the
    /// user's portfolio, unless the strategy has its maximum of open
    /// positions; returns the new position's id.
    pub fn execute_mean_reversion_trade(&mut self, strategy_id: u64, signal: ReversionSignal, now: u64) -> (r: Result<u64, AutoTradeError>)
        requires
            old(self).strategies@.contains_key(strategy_id as u128) ==> {
                let v = old(self).strategies@[strategy_id as u128]@;
                in_i128(old(self).balance_of(v.user) * v.position_size_pct)
            },
            old(self).next_position_id < u64::MAX,
        ensures
            final(self).next_strategy_id == old(self).next_strategy_id,
            final(self).active_ids@ == old(self).active_ids@,
            final(self).histories@ == old(self).histories@,
            final(self).prices@ == old(self).prices@,
            final(self).balances@ == old(self).balances@,
            !old(self).strategies@.contains_key(strategy_id as u128) ==> r == Err::<u64, AutoTradeError>(AutoTradeError::MrStrategyNotFound),
            old(self).strategies@.contains_key(strategy_id as u128) ==> {
                let v = old(self).strategies@[strategy_id as u128]@;
                let amount = tdiv(old(self).balance_of(v.user) * v.position_size_pct, 10_000);
                if open_count(v.active_positions) >= v.max_positions {
                    r == Err::<u64, AutoTradeError>(AutoTradeError::PositionLimitExceeded)
                } else if amount <= 0 {
                    r == Err::<u64, AutoTradeError>(AutoTradeError::InvalidAmount)
                } else {
                    &&& r == Ok::<u64, AutoTradeError>(old(self).next_position_id)
                    &&& final(self).next_position_id == old(self).next_position_id + 1
                    &&& mr_views(final(self).strategies@) == mr_views(old(self).strategies@).insert(strategy_id as u128, MrView {
                        active_positions: v.active_positions.push(position_for(old(self).next_position_id, signal, now, amount)),
                        ..v
                    })
                }
            },
            r is Err ==> final(self).strategies@ == old(self).strategies@ && final(self).next_position_id == old(self).next_position_id,
    {
        let mut strategy = match self.strategies.remove(strategy_id as u128) {
            Some(s) => s,
            None => return Err(AutoTradeError::MrStrategyNotFound),
        };
        let ghost m0 = old(self).strategies@;
        let open = count_open(&strategy.active_positions);
        if open >= strategy.max_positions as usize {
            self.strategies.insert(strategy_id as u128, strategy);
            proof { assert(self.strategies@ =~= m0); }
            return Err(AutoTradeError::PositionLimitExceeded);
        }
        let portfolio_value: i128 = match self.balances.get(strategy.user as u128) {
            Some(b) => *b,
            None => 0,
        };
        let position_amount = div_toward_zero(portfolio_value * strategy.position_size_pct as i128, 10_000);
        if position_amount <= 0 {
            self.strategies.insert(strategy_id as u128, strategy);
            proof { assert(self.strategies@ =~= m0); }
            return Err(AutoTradeError::InvalidAmount);
        }
        let position_id = self.next_position_id;
        self.next_position_id = position_id + 1;
        let position = ReversionPosition {
            position_id: position_id, entry_price: signal.entry_price, entry_z_score: signal.z_score, entry_time: now,
            mean_at_entry: signal.mean, target_price: signal.target_price, stop_loss: signal.stop_loss,
            amount: position_amount, direction: signal.direction, status: PositionStatus::Open,
        };
        strategy.active_positions.push(position);
        self.strategies.insert(strategy_id as u128, strategy);
        proof { assert(mr_views(self.strategies@) =~= mr_views(m0).insert(strategy_id as u128, self.strategies@[strategy_id as u128]@)); }
        Ok(position_id)
    }

    /// Closes the open positions that exit at the current statistics (see
    /// `exits_at`); returns their ids in order.
    pub fn check_reversion_exits(&mut self, strategy_id: u64) -> (r: Result<Vec<u64>, AutoTradeError>)
        requires
            old(self).strategies@.contains_key(strategy_id as u128) ==> {
                let v = old(self).strategies@[strategy_id as u128]@;
                &&& old(self).stats_ok(v.asset_pair, v.lookback_period_days)
                &&& old(self).stats(v.asset_pair, v.lookback_period_days) matches Ok(m) ==> m.z_score > i128::MIN
            },
        ensures
            final(self).next_strategy_id == old(self).next_strategy_id,
            final(self).next_position_id == old(self).next_position_id,
            final(self).active_ids@ == old(self).active_ids@,
            final(self).histories@ == old(self).histories@,
            final(self).prices@ == old(self).prices@,
            final(self).balances@ == old(self).balances@,
            !old(self).strategies@.contains_key(strategy_id as u128) ==> r == Err::<Vec<u64>, AutoTradeError>(AutoTradeError::MrStrategyNotFound)
                && final(self).strategies@ == old(self).strategies@,
            old(self).strategies@.contains_key(strategy_id as u128) ==> {
                let v = old(self).strategies@[strategy_id as u128]@;
                match old(self).stats(v.asset_pair, v.lookback_period_days) {
                    Err(e) => r matches Err(e2) && e2 == e && final(self).strategies@ == old(self).strategies@,
                    Ok(m) => {
                        &&& r matches Ok(ids) && ids@ == exit_ids(v.active_positions, m.current_price as int, m.z_score as int, v.exit_z_score as int)
                        &&& mr_views(final(self).strategies@) == mr_views(old(self).strategies@).insert(strategy_id as u128, MrView {
                            active_positions: after_exits(v.active_positions, m.current_price as int, m.z_score as int, v.exit_z_score as int),
                            ..v
                        })
                    },
                }
            },
    {
        let (asset, days) = match self.strategies.get(strategy_id as u128) {
            Some(s) => (s.asset_pair, s.lookback_period_days),
            None => return Err(AutoTradeError::MrStrategyNotFound),
        };
        let metrics = self.calculate_statistical_metrics(asset, days)?;
        let mut strategy = match self.strategies.remove(strategy_id as u128) {
            Some(s) => s,
            None => return Err(AutoTradeError::MrStrategyNotFound),
        };
        let ghost ps0 = strategy.active_positions@;
        let ghost v0 = strategy@;
        let ghost m0 = old(self).strategies@;
        let price = metrics.current_price;
        let z = metrics.z_score;
        let z_abs = if z < 0 { -z } else { z };
        let exit_z = strategy.exit_z_score;
        let mut closed: Vec<u64> = Vec::new();
        let mut i: usize = 0;
        while i < strategy.active_positions.len()
            invariant
                i <= ps0.len(),
                strategy.active_positions@.len() == ps0.len(),
                z_abs == abs(z as int),
                strategy@ == (MrView { active_positions: strategy.active_positions@, ..v0 }),
                exit_z == v0.exit_z_score,
                forall|j: int| 0 <= j < i ==> #[trigger] strategy.active_positions@[j] == after_exits(ps0, price as int, z as int, exit_z as int)[j],
                forall|j: int| i <= j < ps0.len() ==> #[trigger] strategy.active_positions@[j] == ps0[j],
                closed@ == exit_ids(ps0.take(i as int), price as int, z as int, exit_z as int),
            decreases ps0.len() - i,
        {
            proof { assert(ps0.take(i as int + 1).drop_last() =~= ps0.take(i as int)); }
            let pos = strategy.active_positions[i];
            if pos.status == PositionStatus::Open {
                let target_hit = match pos.direction {
                    TradeDirection::Sell => price <= pos.target_price,
                    TradeDirection::Buy => price >= pos.target_price,
                };
                let stop_hit = match pos.direction {
                    TradeDirection::Sell => price >= pos.stop_loss,
                    TradeDirection::Buy => price <= pos.stop_loss,
                };
                let z_exit = z_abs <= exit_z;
                if target_hit || stop_hit || z_exit {
                    let mut closed_pos = pos;
                    closed_pos.status = PositionStatus::Closed;
                    strategy.active_positions.set(i, closed_pos);
                    closed.push(pos.position_id);
                }
            }
            i = i + 1;
        }
        proof {
            assert(ps0.take(ps0.len() as int) =~= ps0);
            assert(strategy.active_positions@ =~= after_exits(ps0, price as int, z as int, exit_z as int));
        }
        self.strategies.insert(strategy_id as u128, strategy);
        proof { assert(mr_views(self.strategies@) =~= mr_views(m0).insert(strategy_id as u128, self.strategies@[strategy_id as u128]@)); }
        Ok(closed)
    }

    /// Tunes the entry threshold from the success of the recently closed
    /// positions (at least ten among the last twenty), valued at the
    /// current price.
    pub fn adjust_strategy_parameters(&mut self, strategy_id: u64) -> (r: Result<(), AutoTradeError>)
        requires
            old(self).strategies@.contains_key(strategy_id as u128) ==> {
                let v = old(self).strategies@[strategy_id as u128]@;
                old(self).price_opt(v.asset_pair) matches Some(p) ==> {
                    &&& forall|i: int| 0 <= i < recent_closed(v.active_positions).len() ==>
                        #[trigger] pnl_fits(recent_closed(v.active_positions)[i], p as int)
                    &&& in_i128(v.entry_z_score + 1_000)
                    &&& in_i128(v.entry_z_score - 500)
                }
            },
        ensures
            final(self).next_strategy_id == old(self).next_strategy_id,
            final(self).next_position_id == old(self).next_position_id,
            final(self).active_ids@ == old(self).active_ids@,
            final(self).histories@ == old(self).histories@,
            final(self).prices@ == old(self).prices@,
            final(self).balances@ == old(self).balances@,
            !old(self).strategies@.contains_key(strategy_id as u128) ==> r == Err::<(), AutoTradeError>(AutoTradeError::MrStrategyNotFound)
                && final(self).strategies@ == old(self).strategies@,
            old(self).strategies@.contains_key(strategy_id as u128) ==> {
                let v = old(self).strategies@[strategy_id as u128]@;
                let closed = recent_closed(v.active_positions);
                if closed.len() < 10 {
                    r is Ok && final(self).strategies@ == old(self).strategies@
                } else {
                    match old(self).price_opt(v.asset_pair) {
                        None => r == Err::<(), AutoTradeError>(AutoTradeError::MrInsufficientHistory)
                            && final(self).strategies@ == old(self).strategies@,
                        Some(p) => r is Ok && mr_views(final(self).strategies@) == mr_views(old(self).strategies@).insert(strategy_id as u128, MrView {
                            entry_z_score: adjusted_entry(v.entry_z_score as int, win_count(closed, p as int) * 100 / closed.len() as int) as i128,
                            ..v
                        }),
                    }
                }
            },
    {
        let mut strategy = match self.strategies.remove(strategy_id as u128) {
            Some(s) => s,
            None => return Err(AutoTradeError::MrStrategyNotFound),
        };
        let ghost m0 = old(self).strategies@;
        let ghost ps = strategy.active_positions@;
        let len = strategy.active_positions.len();
        let start = if len > 20 { len - 20 } else { 0 };
        let mut closed: Vec<ReversionPosition> = Vec::new();
        let mut i: usize = start;
        while i < len
            invariant
                start <= i <= len,
                len == ps.len(),
                start == (if ps.len() > 20 { ps.len() - 20 } else { 0 }),
                strategy.active_positions@ == ps,
                closed@ == ps.subrange(start as int, i as int).filter(|p: ReversionPosition| p.status == PositionStatus::Closed),
            decreases len - i,
        {
            proof {
                assert(ps.subrange(start as int, i as int + 1).drop_last() =~= ps.subrange(start as int, i as int));
                reveal(Seq::filter);
            }
            let p = strategy.active_positions[i];
            if p.status == PositionStatus::Closed {
                closed.push(p);
            }
            i = i + 1;
        }
        if closed.len() < 10 {
            self.strategies.insert(strategy_id as u128, strategy);
            proof { assert(self.strategies@ =~= m0); }
            return Ok(());
        }
        let current_price = match self.prices.get(strategy.asset_pair as u128) {
            Some(p) => *p,
            None => {
                self.strategies.insert(strategy_id as u128, strategy);
                proof { assert(self.strategies@ =~= m0); }
                return Err(AutoTradeError::MrInsufficientHistory);
            },
        };
        let ghost cs = closed@;
        let mut wins: usize = 0;
        let mut k: usize = 0;
        while k < closed.len()
            invariant
                k <= cs.len(),
                closed@ == cs,
                forall|j: int| 0 <= j < cs.len() ==> #[trigger] pnl_fits(cs[j], current_price as int),
                wins == win_count(cs.take(k as int), current_price as int),
                wins <= k,
            decreases cs.len() - k,
        {
            proof { assert(cs.take(k as int + 1).drop_last() =~= cs.take(k as int)); }
            if calculate_pnl(&closed[k], current_price) > 0 {
                wins = wins + 1;
            }
            k = k + 1;
        }
        proof { assert(cs.take(cs.len() as int) =~= cs); }
        let success_rate = (wins * 100) / closed.len();
        if success_rate < 40 {
            let raised = strategy.entry_z_score + 1_000;
            strategy.entry_z_score = if raised < 30_000 { raised } else { 30_000 };
        } else if success_rate > 60 {
            let lowered = strategy.entry_z_score - 500;
            strategy.entry_z_score = if lowered > 15_000 { lowered } else { 15_000 };
        }
        self.strategies.insert(strategy_id as u128, strategy);
        proof { assert(mr_views(self.strategies@) =~= mr_views(m0).insert(strategy_id as u128, self.strategies@[strategy_id as u128]@)); }
        Ok(())
    }
}

}
