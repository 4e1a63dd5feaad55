//! Breakout trading: support/resistance detection, volume-confirmed
//! breakouts, false-breakout handling and performance analytics.
use vstd::prelude::*;
use crate::errors::AutoTradeError;
use crate::iceberg::AssetPair;
use crate::math::{abs, in_i128, in_i32, min, tdiv};
use crate::AccountId;

verus! {

/// The persistent slots of the breakout strategies.
#[derive(Debug)]
pub enum BreakoutDataKey {
    Strategy(u64),
    StrategyPositions(u64),
    KeyLevels(u64),
    PriceHistory(AssetPair, u64),
}

pub const PRICE_LEVEL_TOLERANCE_BPS: i128 = 20;
pub const MIN_CANDLE_HISTORY: usize = 20;
pub const MAX_KEY_LEVELS: usize = 10;
pub const DEFAULT_LOOKBACK_SECONDS: u64 = 86400;
pub const CANDLE_DURATION_SECONDS: u64 = 3600;

/// A price candle (OHLCV).
#[derive(Clone, Copy, Debug, PartialEq, Eq, Structural)]
pub struct Candle {
    pub timestamp: u64,
    pub open: i128,
    pub high: i128,
    pub low: i128,
    pub close: i128,
    pub volume: i128,
}

#[derive(Clone, Copy, Debug, PartialEq, Eq, Structural)]
pub enum LevelType {
    Resistance,
    Support,
    Pivot,
}

/// A detected support/resistance level.
#[derive(Clone, Copy, Debug, PartialEq, Eq, Structural)]
pub struct PriceLevel {
    pub price: i128,
    pub level_type: LevelType,
    /// How many times price tested this level.
    pub strength: u32,
    /// Timestamp of the last test.
    pub last_test: u64,
}

#[derive(Clone, Copy, Debug, PartialEq, Eq, Structural)]
pub enum BreakDirection {
    Upward,
    Downward,
}

#[derive(Clone, Copy, Debug, PartialEq, Eq, Structural)]
pub enum PositionStatus {
    Open,
    Closed,
}

#[derive(Clone, Copy, Debug, PartialEq, Eq, Structural)]
pub struct BreakoutPosition {
    pub position_id: u64,
    pub direction: BreakDirection,
    pub breakout_level: i128,
    pub entry_price: i128,
    /// Volume ratio when entered.
    pub entry_volume: i128,
    pub stop_loss: i128,
    pub target_price: i128,
    pub amount: i128,
    pub status: PositionStatus,
    pub entry_time: u64,
}

#[derive(Clone, Copy, Debug, PartialEq, Eq, Structural)]
pub struct BreakoutSignal {
    pub direction: BreakDirection,
    pub breakout_level: i128,
    pub current_price: i128,
    pub target_price: i128,
    pub stop_loss: i128,
    pub level_strength: u32,
    /// Current volume as a percentage of the average.
    pub volume_ratio: u32,
    /// 0-10000.
    pub confidence: u32,
}

pub struct BreakoutStrategy {
    pub strategy_id: u64,
    pub user: AccountId,
    pub asset_pair: AssetPair,
    pub lookback_period_days: u32,
    /// Volume required, as a percentage of average (150 = 1.5x).
    pub volume_multiplier: u32,
    pub confirmation_candles: u32,
    /// Position size in basis points of the portfolio.
    pub position_size_pct: u32,
    pub active_positions: Vec<BreakoutPosition>,
    pub key_levels: Vec<PriceLevel>,
    /// Id that the next opened position receives.
    pub next_position_id: u64,
}

#[derive(Clone, Copy, Debug, PartialEq, Eq, Structural)]
pub struct BreakoutPerformance {
    pub total_breakouts_detected: u32,
    pub total_trades_executed: u32,
    pub successful_breakouts: u32,
    pub false_breakouts: u32,
    pub stopped_out: u32,
    pub avg_breakout_profit_pct: i32,
    pub avg_volume_on_breakout: u32,
}

// ---------------------------------------------------------------------------
// Signals
// ---------------------------------------------------------------------------

pub open spec fn breakout_confidence(level_strength: int, volume_ratio: int) -> int {
    let strength_score = min(level_strength * 1000, 4000);
    let volume_contribution = if volume_ratio > 100 { volume_ratio - 100 } else { 0 };
    let volume_score = min(volume_contribution * 20, 4000);
    strength_score + volume_score + 2000
}

/// Confidence 0-10000: 20% base, up to 40% from level strength (10% per
/// test) and up to 40% from volume above average (0.2% per point).
pub fn calculate_breakout_confidence(level_strength: u32, volume_ratio: u32) -> (r: Result<u32, AutoTradeError>)
    requires
        level_strength * 1000 <= u32::MAX,
        volume_ratio <= 100 || (volume_ratio - 100) * 20 <= u32::MAX,
    ensures
        r == Ok::<u32, AutoTradeError>(breakout_confidence(level_strength as int, volume_ratio as int) as u32),
        breakout_confidence(level_strength as int, volume_ratio as int) <= 10_000,
{
    let strength_score = if level_strength * 1000 > 4000 { 4000 } else { level_strength * 1000 };
    let volume_contribution = if volume_ratio > 100 { volume_ratio - 100 } else { 0 };
    let volume_score = if volume_contribution * 20 > 4000 { 4000 } else { volume_contribution * 20 };
    let base_score: u32 = 2000;
    Ok(strength_score + volume_score + base_score)
}

/// Volume as a percentage of the average (100 when there is no average).
pub open spec fn volume_ratio_of(current_volume: int, avg_volume: int) -> u32 {
    if avg_volume > 0 { tdiv(current_volume * 100, avg_volume) as u32 } else { 100 }
}

/// Target 2 ranges beyond the level, stop half a range back inside it; the
/// range is 0.5% of the level price.
pub open spec fn breakout_signal(level: PriceLevel, direction: BreakDirection, current_price: i128, current_volume: i128, avg_volume: i128) -> BreakoutSignal {
    let range = tdiv(level.price * 50, 10_000);
    let volume_ratio = volume_ratio_of(current_volume as int, avg_volume as int);
    BreakoutSignal {
        direction,
        breakout_level: level.price,
        current_price,
        target_price: (match direction {
            BreakDirection::Upward => level.price + range * 2,
            BreakDirection::Downward => level.price - range * 2,
        }) as i128,
        stop_loss: (match direction {
            BreakDirection::Upward => level.price - tdiv(range, 2),
            BreakDirection::Downward => level.price + tdiv(range, 2),
        }) as i128,
        level_strength: level.strength,
        volume_ratio,
        confidence: breakout_confidence(level.strength as int, volume_ratio as int) as u32,
    }
}

pub open spec fn signal_fits(level: PriceLevel, current_volume: i128, avg_volume: i128) -> bool {
    let range = tdiv(level.price * 50, 10_000);
    let vr = volume_ratio_of(current_volume as int, avg_volume as int);
    &&& in_i128(level.price * 50)
    &&& in_i128(level.price + range * 2)
    &&& in_i128(level.price - range * 2)
    &&& (avg_volume > 0 ==> in_i128(current_volume * 100))
    &&& level.strength * 1000 <= u32::MAX
    &&& (vr <= 100 || (vr - 100) * 20 <= u32::MAX)
}

pub fn create_breakout_signal(
    level: &PriceLevel,
    direction: BreakDirection,
    current_price: i128,
    current_volume: i128,
    avg_volume: i128,
) -> (r: Result<BreakoutSignal, AutoTradeError>)
    requires
        signal_fits(*level, current_volume, avg_volume),
    ensures
        r == Ok::<BreakoutSignal, AutoTradeError>(breakout_signal(*level, direction, current_price, current_volume, avg_volume)),
{
    let level_range = (level.price * 50) / 10000;
    let (target_price, stop_loss) = match direction {
        BreakDirection::Upward => (level.price + (level_range * 2), level.price - (level_range / 2)),
        BreakDirection::Downward => (level.price - (level_range * 2), level.price + (level_range / 2)),
    };
    let volume_ratio: u32 = if avg_volume > 0 {
        ((current_volume * 100) / avg_volume) as u32
    } else {
        100
    };
    let confidence = calculate_breakout_confidence(level.strength, volume_ratio)?;
    Ok(BreakoutSignal {
        direction,
        breakout_level: level.price,
        current_price,
        target_price,
        stop_loss,
        level_strength: level.strength,
        volume_ratio,
        confidence,
    })
}

pub open spec fn is_false_breakout(position: BreakoutPosition, current_price: i128) -> bool {
    match position.direction {
        BreakDirection::Upward => current_price < position.breakout_level,
        BreakDirection::Downward => current_price > position.breakout_level,
    }
}

/// A breakout is false when price has moved back through the broken level.
pub fn detect_false_breakout(position: &BreakoutPosition, current_price: i128) -> (r: bool)
    ensures
        r == is_false_breakout(*position, current_price),
{
    match position.direction {
        BreakDirection::Upward => current_price < position.breakout_level,
        BreakDirection::Downward => current_price > position.breakout_level,
    }
}

pub open spec fn candle_confirms(c: Candle, level_price: i128, direction: BreakDirection) -> bool {
    match direction {
        BreakDirection::Upward => c.low > level_price,
        BreakDirection::Downward => c.high < level_price,
    }
}

/// The breakout is confirmed when every recent candle stayed on the breakout side.
pub fn is_breakout_confirmed(recent_candles: &Vec<Candle>, level_price: i128, direction: BreakDirection) -> (r: bool)
    ensures
        r == (forall|i: int| 0 <= i < recent_candles@.len() ==> #[trigger] candle_confirms(recent_candles@[i], level_price, direction)),
{
    let mut i: usize = 0;
    while i < recent_candles.len()
        invariant
            i <= recent_candles@.len(),
            forall|k: int| 0 <= k < i ==> #[trigger] candle_confirms(recent_candles@[k], level_price, direction),
        decreases recent_candles@.len() - i,
    {
        let candle = recent_candles[i];
        let stayed = match direction {
            BreakDirection::Upward => candle.low > level_price,
            BreakDirection::Downward => candle.high < level_price,
        };
        if !stayed {
            assert(!candle_confirms(recent_candles@[i as int], level_price, direction));
            return false;
        }
        i = i + 1;
    }
    true
}

/// Whether `level` is broken by `current_price` with enough volume and confirmation.
pub open spec fn level_breaks(level: PriceLevel, current_price: i128, vr: u32, volume_multiplier: u32, confirmed_up: bool, confirmed_down: bool) -> Option<BreakDirection> {
    match level.level_type {
        LevelType::Resistance => if current_price > level.price && vr >= volume_multiplier && confirmed_up { Some(BreakDirection::Upward) } else { None },
        LevelType::Support => if current_price < level.price && vr >= volume_multiplier && confirmed_down { Some(BreakDirection::Downward) } else { None },
        LevelType::Pivot => None,
    }
}

/// All recent candles stayed on the breakout side of `level_price`.
pub open spec fn confirmed(recent: Seq<Candle>, level_price: i128, direction: BreakDirection) -> bool {
    forall|i: int| 0 <= i < recent.len() ==> #[trigger] candle_confirms(recent[i], level_price, direction)
}

pub open spec fn breaks_at(levels: Seq<PriceLevel>, i: int, current: Candle, avg_volume: i128, recent: Seq<Candle>, volume_multiplier: u32) -> Option<BreakDirection> {
    level_breaks(levels[i], current.close, volume_ratio_of(current.volume as int, avg_volume as int), volume_multiplier,
        confirmed(recent, levels[i].price, BreakDirection::Upward), confirmed(recent, levels[i].price, BreakDirection::Downward))
}

/// Signal for the first key level (in order) that breaks, if any.
pub open spec fn first_breakout(levels: Seq<PriceLevel>, i: int, current: Candle, avg_volume: i128, recent: Seq<Candle>, volume_multiplier: u32) -> Option<BreakoutSignal>
    decreases levels.len() - i,
{
    if i >= levels.len() || i < 0 {
        None
    } else {
        match breaks_at(levels, i, current, avg_volume, recent, volume_multiplier) {
            Some(d) => Some(breakout_signal(levels[i], d, current.close, current.volume, avg_volume)),
            None => first_breakout(levels, i + 1, current, avg_volume, recent, volume_multiplier),
        }
    }
}

/// Check the key levels in order against the current candle: the first
/// resistance closed above (or support closed below) with volume at least
/// `volume_multiplier` percent of average and confirmed by every recent
/// candle yields the signal.
pub fn detect_breakout_with(
    volume_multiplier: u32,
    key_levels: &Vec<PriceLevel>,
    current_candle: &Candle,
    avg_volume: i128,
    recent_candles: &Vec<Candle>,
) -> (r: Result<Option<BreakoutSignal>, AutoTradeError>)
    requires
        avg_volume > 0 ==> in_i128(current_candle.volume * 100),
        forall|i: int| 0 <= i < key_levels@.len() ==> #[trigger] signal_fits(key_levels@[i], current_candle.volume, avg_volume),
    ensures
        r == Ok::<Option<BreakoutSignal>, AutoTradeError>(first_breakout(key_levels@, 0, *current_candle, avg_volume, recent_candles@, volume_multiplier)),
{
    let current_price = current_candle.close;
    let current_volume = current_candle.volume;
    let mut i: usize = 0;
    while i < key_levels.len()
        invariant
            i <= key_levels@.len(),
            current_price == current_candle.close,
            current_volume == current_candle.volume,
            avg_volume > 0 ==> in_i128(current_candle.volume * 100),
            forall|k: int| 0 <= k < key_levels@.len() ==> #[trigger] signal_fits(key_levels@[k], current_candle.volume, avg_volume),
            first_breakout(key_levels@, 0, *current_candle, avg_volume, recent_candles@, volume_multiplier)
                == first_breakout(key_levels@, i as int, *current_candle, avg_volume, recent_candles@, volume_multiplier),
        decreases key_levels@.len() - i,
    {
        let level = key_levels[i];
        let volume_ratio: u32 = if avg_volume > 0 { ((current_volume * 100) / avg_volume) as u32 } else { 100 };
        assert(signal_fits(key_levels@[i as int], current_candle.volume, avg_volume));
        match level.level_type {
            LevelType::Resistance => {
                if current_price > level.price && volume_ratio >= volume_multiplier {
                    if is_breakout_confirmed(recent_candles, level.price, BreakDirection::Upward) {
                        return Ok(Some(create_breakout_signal(&level, BreakDirection::Upward, current_price, current_volume, avg_volume)?));
                    }
                }
            },
            LevelType::Support => {
                if current_price < level.price && volume_ratio >= volume_multiplier {
                    if is_breakout_confirmed(recent_candles, level.price, BreakDirection::Downward) {
                        return Ok(Some(create_breakout_signal(&level, BreakDirection::Downward, current_price, current_volume, avg_volume)?));
                    }
                }
            },
            LevelType::Pivot => {},
        }
        i = i + 1;
    }
    Ok(None)
}


// ---------------------------------------------------------------------------
// Support / resistance detection
// ---------------------------------------------------------------------------

/// Two prices closer than 0.2% of the new price belong to the same level.
pub open spec fn level_tolerance(price: int) -> int {
    tdiv(price * 20, 10_000)
}

/// Index of the first level near `price` at or after `i`, or -1.
pub open spec fn near_index(levels: Seq<PriceLevel>, price: int, i: int) -> int
    decreases levels.len() - i,
{
    if i < 0 || i >= levels.len() {
        -1
    } else if abs(levels[i].price - price) < level_tolerance(price) {
        i
    } else {
        near_index(levels, price, i + 1)
    }
}

/// A new test of `price`: strengthen the first nearby level, or add a level.
pub open spec fn cluster_level(levels: Seq<PriceLevel>, price: i128, kind: LevelType, ts: u64) -> Seq<PriceLevel> {
    let j = near_index(levels, price as int, 0);
    if j >= 0 {
        levels.update(j, PriceLevel { strength: (levels[j].strength + 1) as u32, last_test: ts, ..levels[j] })
    } else {
        levels.push(PriceLevel { price, level_type: kind, strength: 1, last_test: ts })
    }
}

/// Candle `i`'s high is above the highs of the two candles on each side.
pub open spec fn is_local_high(c: Seq<Candle>, i: int) -> bool {
    &&& c[i].high > c[i - 1].high
    &&& c[i].high > c[i - 2].high
    &&& c[i].high > c[i + 1].high
    &&& c[i].high > c[i + 2].high
}

/// Candle `i`'s low is below the lows of the two candles on each side.
pub open spec fn is_local_low(c: Seq<Candle>, i: int) -> bool {
    &&& c[i].low < c[i - 1].low
    &&& c[i].low < c[i - 2].low
    &&& c[i].low < c[i + 1].low
    &&& c[i].low < c[i + 2].low
}

/// Levels after clustering the local highs of candles 2..end.
pub open spec fn scan_highs(c: Seq<Candle>, end: int) -> Seq<PriceLevel>
    decreases end,
{
    if end <= 2 {
        Seq::empty()
    } else {
        let prev = scan_highs(c, end - 1);
        if is_local_high(c, end - 1) { cluster_level(prev, c[end - 1].high, LevelType::Resistance, c[end - 1].timestamp) } else { prev }
    }
}

/// `base` after clustering the local lows of candles 2..end.
pub open spec fn scan_lows(c: Seq<Candle>, base: Seq<PriceLevel>, end: int) -> Seq<PriceLevel>
    decreases end,
{
    if end <= 2 {
        base
    } else {
        let prev = scan_lows(c, base, end - 1);
        if is_local_low(c, end - 1) { cluster_level(prev, c[end - 1].low, LevelType::Support, c[end - 1].timestamp) } else { prev }
    }
}

/// All levels found in the candles: resistances from local highs, then
/// supports from local lows, each new test strengthening a nearby level.
pub open spec fn clustered_levels(c: Seq<Candle>) -> Seq<PriceLevel> {
    scan_lows(c, scan_highs(c, c.len() - 2), c.len() - 2)
}

pub open spec fn sorted_by_strength(s: Seq<PriceLevel>) -> bool {
    forall|i: int, j: int| 0 <= i < j < s.len() ==> #[trigger] s[i].strength >= #[trigger] s[j].strength
}

/// `b[k] == a[p[k]]` for a bijection `p` of the indices.
pub open spec fn permutes(a: Seq<PriceLevel>, b: Seq<PriceLevel>, p: Seq<int>) -> bool {
    &&& a.len() == b.len()
    &&& p.len() == a.len()
    &&& forall|k: int| 0 <= k < p.len() ==> 0 <= #[trigger] p[k] < a.len()
    &&& forall|k: int, l: int| 0 <= k < l < p.len() ==> #[trigger] p[k] != #[trigger] p[l]
    &&& forall|k: int| 0 <= k < b.len() ==> #[trigger] b[k] == a[p[k]]
}

pub open spec fn is_permutation(a: Seq<PriceLevel>, b: Seq<PriceLevel>) -> bool {
    exists|p: Seq<int>| permutes(a, b, p)
}

/// Candle values whose tolerance and distances can be computed in `i128`.
pub open spec fn candle_fits(c: Candle) -> bool {
    &&& in_i128(c.high * 20)
    &&& in_i128(c.low * 20)
}

pub open spec fn level_fits(l: PriceLevel, bound: int) -> bool {
    in_i128(l.price * 20) && l.strength <= bound
}

pub open spec fn levels_fit(levels: Seq<PriceLevel>, bound: int) -> bool {
    forall|k: int| 0 <= k < levels.len() ==> #[trigger] level_fits(levels[k], bound)
}

proof fn lemma_levels_fit_mono(levels: Seq<PriceLevel>, a: int, b: int)
    requires
        levels_fit(levels, a),
        a <= b,
    ensures
        levels_fit(levels, b),
{
    assert forall|k: int| 0 <= k < levels.len() implies #[trigger] level_fits(levels[k], b) by {
        assert(level_fits(levels[k], a));
    }
}

proof fn lemma_near_index_range(levels: Seq<PriceLevel>, price: int, i: int)
    ensures
        near_index(levels, price, i) == -1 || (i <= near_index(levels, price, i) < levels.len() && near_index(levels, price, i) >= 0),
    decreases levels.len() - i,
{
    if i >= 0 && i < levels.len() && !(abs(levels[i].price - price) < level_tolerance(price)) {
        lemma_near_index_range(levels, price, i + 1);
    }
}

fn cluster_into(levels: &mut Vec<PriceLevel>, price: i128, kind: LevelType, ts: u64, Ghost(bound): Ghost<int>)
    requires
        in_i128(price * 20),
        levels_fit(old(levels)@, bound),
        0 <= bound < u32::MAX,
    ensures
        final(levels)@ == cluster_level(old(levels)@, price, kind, ts),
        levels_fit(final(levels)@, bound + 1),
{
    let tolerance = (price * PRICE_LEVEL_TOLERANCE_BPS) / 10000;
    let mut i: usize = 0;
    while i < levels.len()
        invariant
            i <= levels@.len(),
            levels@ == old(levels)@,
            levels_fit(levels@, bound),
            0 <= bound < u32::MAX,
            in_i128(price * 20),
            tolerance == level_tolerance(price as int),
            near_index(levels@, price as int, 0) == near_index(levels@, price as int, i as int),
        decreases levels@.len() - i,
    {
        let lp = levels[i].price;
        assert(level_fits(levels@[i as int], bound));
        let diff = lp - price;
        let d = if diff < 0 { -diff } else { diff };
        if d < tolerance {
            let l = levels[i];
            let ghost before = levels@;
            levels.set(i, PriceLevel { strength: l.strength + 1, last_test: ts, ..l });
            proof {
                assert forall|k: int| 0 <= k < levels@.len() implies #[trigger] level_fits(levels@[k], bound + 1) by {
                    assert(level_fits(before[k], bound));
                }
            }
            return;
        }
        i = i + 1;
    }
    let ghost before = levels@;
    levels.push(PriceLevel { price, level_type: kind, strength: 1, last_test: ts });
    proof {
        assert forall|k: int| 0 <= k < levels@.len() implies #[trigger] level_fits(levels@[k], bound + 1) by {
            if k < before.len() { assert(level_fits(before[k], bound)); }
        }
    }
}

/// Levels `i` and `j` exchanged when `j` is the stronger.
pub open spec fn exchange_step(s: Seq<PriceLevel>, i: int, j: int) -> Seq<PriceLevel> {
    if s[j].strength > s[i].strength { s.update(i, s[j]).update(j, s[i]) } else { s }
}

/// Compare level `i` with each later level from `j` on (of `n`),
/// exchanging whenever the later one is stronger.
pub open spec fn exchange_row(s: Seq<PriceLevel>, n: int, i: int, j: int) -> Seq<PriceLevel>
    decreases n - j,
{
    if j < n { exchange_row(exchange_step(s, i, j), n, i, j + 1) } else { s }
}

/// The exchange sort from row `i` on: each row brings the strongest of the
/// remaining levels to its place.
pub open spec fn exchange_rows(s: Seq<PriceLevel>, n: int, i: int) -> Seq<PriceLevel>
    decreases n - i,
{
    if i < n { exchange_rows(exchange_row(s, n, i, i + 1), n, i + 1) } else { s }
}

/// Levels in the order the exchange sort leaves them.
pub open spec fn exchange_sorted(s: Seq<PriceLevel>) -> Seq<PriceLevel> {
    exchange_rows(s, s.len() as int, 0)
}

/// Sort levels by strength, strongest first, by exchanging out-of-order pairs.
fn sort_by_strength(levels: &mut Vec<PriceLevel>)
    ensures
        is_permutation(old(levels)@, final(levels)@),
        sorted_by_strength(final(levels)@),
        final(levels)@ == exchange_sorted(old(levels)@),
{
    let n = levels.len();
    let ghost orig = levels@;
    let ghost mut perm: Seq<int> = Seq::new(n as nat, |k: int| k);
    let mut i: usize = 0;
    while i < n
        invariant
            n == levels@.len(),
            i <= n,
            permutes(orig, levels@, perm),
            exchange_rows(levels@, n as int, i as int) == exchange_sorted(orig),
            forall|a: int, b: int| 0 <= a < b < i ==> #[trigger] levels@[a].strength >= #[trigger] levels@[b].strength,
            forall|a: int, b: int| 0 <= a < i <= b < n ==> #[trigger] levels@[a].strength >= #[trigger] levels@[b].strength,
        decreases n - i,
    {
        let ghost row_start = levels@;
        let mut j: usize = i + 1;
        while j < n
            invariant
                n == levels@.len(),
                i < n,
                i < j <= n,
                permutes(orig, levels@, perm),
                exchange_rows(row_start, n as int, i as int) == exchange_sorted(orig),
                exchange_row(levels@, n as int, i as int, j as int) == exchange_row(row_start, n as int, i as int, i + 1),
                forall|a: int, b: int| 0 <= a < b < i ==> #[trigger] levels@[a].strength >= #[trigger] levels@[b].strength,
                forall|a: int, b: int| 0 <= a < i <= b < n ==> #[trigger] levels@[a].strength >= #[trigger] levels@[b].strength,
                forall|b: int| i < b < j ==> levels@[i as int].strength >= #[trigger] levels@[b].strength,
            decreases n - j,
        {
            proof {
                assert(exchange_row(levels@, n as int, i as int, j as int)
                    == exchange_row(exchange_step(levels@, i as int, j as int), n as int, i as int, j + 1));
            }
            if levels[j].strength > levels[i].strength {
                let ghost before = levels@;
                let li = levels[i];
                let lj = levels[j];
                levels.set(i, lj);
                levels.set(j, li);
                proof {
                    let old_perm = perm;
                    perm = perm.update(i as int, old_perm[j as int]).update(j as int, old_perm[i as int]);
                    assert forall|k: int| 0 <= k < levels@.len() implies #[trigger] levels@[k] == orig[perm[k]] by {
                        if k == i { assert(levels@[k] == before[j as int]); }
                        else if k == j { assert(levels@[k] == before[i as int]); }
                        else { assert(levels@[k] == before[k]); }
                    }
                    assert forall|k: int, l: int| 0 <= k < l < perm.len() implies #[trigger] perm[k] != #[trigger] perm[l] by {
                        let ok = if k == i { j as int } else if k == j { i as int } else { k };
                        let ol = if l == i { j as int } else if l == j { i as int } else { l };
                        assert(perm[k] == old_perm[ok]);
                        assert(perm[l] == old_perm[ol]);
                        if ok < ol { assert(old_perm[ok] != old_perm[ol]); }
                        else { assert(old_perm[ol] != old_perm[ok]); }
                    }
                    assert forall|a: int, b: int| 0 <= a < i <= b < n implies #[trigger] levels@[a].strength >= #[trigger] levels@[b].strength by {
                        let ob = if b == i { j as int } else if b == j { i as int } else { b };
                        assert(levels@[b] == before[ob]);
                        assert(before[a].strength >= before[ob].strength);
                    }
                    assert forall|a: int, b: int| 0 <= a < b < i implies #[trigger] levels@[a].strength >= #[trigger] levels@[b].strength by {
                        assert(levels@[a] == before[a] && levels@[b] == before[b]);
                    }
                    assert forall|b: int| i < b < j + 1 implies levels@[i as int].strength >= #[trigger] levels@[b].strength by {
                        if b < j { assert(levels@[b] == before[b]); }
                    }
                }
            }
            j = j + 1;
        }
        proof {
            assert(exchange_rows(row_start, n as int, i as int) == exchange_rows(exchange_row(row_start, n as int, i as int, i + 1), n as int, i + 1));
        }
        i = i + 1;
    }
    proof {
        assert(permutes(orig, levels@, perm));
        assert(orig.len() == n);
    }
}

/// The key levels: all clustered levels sorted by strength (strongest
/// first), keeping the ten strongest. Needs at least 20 candles.
pub fn identify_key_levels_from(candles: &Vec<Candle>) -> (r: Result<Vec<PriceLevel>, AutoTradeError>)
    requires
        candles@.len() <= 0x7fff_ffff,
        forall|i: int| 0 <= i < candles@.len() ==> #[trigger] candle_fits(candles@[i]),
    ensures
        candles@.len() < 20 <==> r == Err::<Vec<PriceLevel>, AutoTradeError>(AutoTradeError::InsufficientPriceHistory),
        match r {
            Ok(levels) => {
                let sorted = exchange_sorted(clustered_levels(candles@));
                &&& is_permutation(clustered_levels(candles@), sorted)
                &&& sorted_by_strength(sorted)
                &&& levels@ == sorted.take(min(sorted.len() as int, 10))
            },
            Err(_) => true,
        },
{
    if candles.len() < MIN_CANDLE_HISTORY {
        return Err(AutoTradeError::InsufficientPriceHistory);
    }
    let n = candles.len();
    let mut levels: Vec<PriceLevel> = Vec::new();
    let mut i: usize = 2;
    while i < n - 2
        invariant
            n == candles@.len(),
            20 <= n <= 0x7fff_ffff,
            2 <= i <= n - 2,
            forall|k: int| 0 <= k < candles@.len() ==> #[trigger] candle_fits(candles@[k]),
            levels@ == scan_highs(candles@, i as int),
            levels_fit(levels@, i - 2),
        decreases n - i,
    {
        let c = candles[i];
        assert(candle_fits(candles@[i as int]));
        if c.high > candles[i - 1].high && c.high > candles[i - 2].high && c.high > candles[i + 1].high && c.high > candles[i + 2].high {
            cluster_into(&mut levels, c.high, LevelType::Resistance, c.timestamp, Ghost((i - 2) as int));
        } else {
            proof { lemma_levels_fit_mono(levels@, i - 2, i - 1); }
        }
        i = i + 1;
    }
    let ghost highs = levels@;
    let mut i: usize = 2;
    while i < n - 2
        invariant
            n == candles@.len(),
            20 <= n <= 0x7fff_ffff,
            2 <= i <= n - 2,
            forall|k: int| 0 <= k < candles@.len() ==> #[trigger] candle_fits(candles@[k]),
            highs == scan_highs(candles@, n - 2),
            levels@ == scan_lows(candles@, highs, i as int),
            levels_fit(levels@, n - 4 + i - 2),
        decreases n - i,
    {
        let c = candles[i];
        assert(candle_fits(candles@[i as int]));
        if c.low < candles[i - 1].low && c.low < candles[i - 2].low && c.low < candles[i + 1].low && c.low < candles[i + 2].low {
            cluster_into(&mut levels, c.low, LevelType::Support, c.timestamp, Ghost((n - 4 + i - 2) as int));
        } else {
            proof { lemma_levels_fit_mono(levels@, n - 4 + i - 2, n - 4 + i - 1); }
        }
        i = i + 1;
    }
    let ghost clustered = levels@;
    sort_by_strength(&mut levels);
    let ghost sorted = levels@;
    while levels.len() > MAX_KEY_LEVELS
        invariant
            levels@.len() >= min(sorted.len() as int, 10),
            levels@.len() <= sorted.len(),
            levels@ == sorted.take(levels@.len() as int),
        decreases levels@.len(),
    {
        levels.pop();
        assert(levels@ =~= sorted.take(levels@.len() as int));
    }
    proof {
        assert(levels@ == sorted.take(min(sorted.len() as int, 10)));
    }
    Ok(levels)
}


// ---------------------------------------------------------------------------
// Positions
// ---------------------------------------------------------------------------

/// Everything of a strategy but its positions and key levels is the same.
pub open spec fn same_settings(a: BreakoutStrategy, b: BreakoutStrategy) -> bool {
    &&& a.strategy_id == b.strategy_id
    &&& a.user == b.user
    &&& a.asset_pair == b.asset_pair
    &&& a.lookback_period_days == b.lookback_period_days
    &&& a.volume_multiplier == b.volume_multiplier
    &&& a.confirmation_candles == b.confirmation_candles
    &&& a.position_size_pct == b.position_size_pct
    &&& a.next_position_id == b.next_position_id
}

/// An open position exits at its target or its stop.
pub open spec fn should_exit(p: BreakoutPosition, price: i128) -> bool {
    match p.direction {
        BreakDirection::Upward => price >= p.target_price || price <= p.stop_loss,
        BreakDirection::Downward => price <= p.target_price || price >= p.stop_loss,
    }
}

pub open spec fn exits_now(p: BreakoutPosition, price: i128) -> bool {
    p.status == PositionStatus::Open && should_exit(p, price)
}

pub open spec fn after_exit_check(p: BreakoutPosition, price: i128) -> BreakoutPosition {
    if exits_now(p, price) { BreakoutPosition { status: PositionStatus::Closed, ..p } } else { p }
}

/// Ids of the positions that exit at `price`, in order.
pub open spec fn exiting_ids(ps: Seq<BreakoutPosition>, price: i128) -> Seq<u64>
    decreases ps.len(),
{
    if ps.len() == 0 {
        Seq::empty()
    } else if exits_now(ps.last(), price) {
        exiting_ids(ps.drop_last(), price).push(ps.last().position_id)
    } else {
        exiting_ids(ps.drop_last(), price)
    }
}

/// Close the open positions whose target or stop is reached at
/// `current_price`; returns their ids.
pub fn check_breakout_exits_on(strategy: &mut BreakoutStrategy, current_price: i128) -> (r: Vec<u64>)
    ensures
        r@ == exiting_ids(old(strategy).active_positions@, current_price),
        final(strategy).active_positions@ == old(strategy).active_positions@.map_values(|p: BreakoutPosition| after_exit_check(p, current_price)),
        final(strategy).key_levels@ == old(strategy).key_levels@,
        same_settings(*final(strategy), *old(strategy)),
{
    let ghost orig = strategy.active_positions@;
    let mut closed: Vec<u64> = Vec::new();
    let mut i: usize = 0;
    while i < strategy.active_positions.len()
        invariant
            strategy.active_positions@.len() == orig.len(),
            i <= orig.len(),
            forall|k: int| 0 <= k < i ==> strategy.active_positions@[k] == after_exit_check(orig[k], current_price),
            forall|k: int| i <= k < orig.len() ==> strategy.active_positions@[k] == orig[k],
            closed@ == exiting_ids(orig.take(i as int), current_price),
            strategy.key_levels@ == old(strategy).key_levels@,
            same_settings(*strategy, *old(strategy)),
            orig == old(strategy).active_positions@,
        decreases orig.len() - i,
    {
        let position = strategy.active_positions[i];
        proof { assert(orig.take(i + 1).drop_last() =~= orig.take(i as int)); }
        if position.status == PositionStatus::Open {
            let exit = match position.direction {
                BreakDirection::Upward => current_price >= position.target_price || current_price <= position.stop_loss,
                BreakDirection::Downward => current_price <= position.target_price || current_price >= position.stop_loss,
            };
            if exit {
                strategy.active_positions.set(i, BreakoutPosition { status: PositionStatus::Closed, ..position });
                closed.push(position.position_id);
            }
        }
        i = i + 1;
    }
    proof {
        assert(orig.take(orig.len() as int) =~= orig);
        assert(strategy.active_positions@ =~= orig.map_values(|p: BreakoutPosition| after_exit_check(p, current_price)));
    }
    closed
}

/// Index of the first position with id `position_id`, or -1.
pub open spec fn position_index(ps: Seq<BreakoutPosition>, position_id: u64, i: int) -> int
    decreases ps.len() - i,
{
    if i < 0 || i >= ps.len() {
        -1
    } else if ps[i].position_id == position_id {
        i
    } else {
        position_index(ps, position_id, i + 1)
    }
}

/// The positions after closing the first one with id `position_id`; the
/// same positions where none has that id.
pub open spec fn close_position(ps: Seq<BreakoutPosition>, position_id: u64) -> Seq<BreakoutPosition> {
    let i = position_index(ps, position_id, 0);
    if i >= 0 {
        ps.update(i, BreakoutPosition { status: PositionStatus::Closed, ..ps[i] })
    } else {
        ps
    }
}

/// Close the first position with id `position_id` (a false breakout).
pub fn handle_false_breakout_on(strategy: &mut BreakoutStrategy, position_id: u64)
    ensures
        final(strategy).active_positions@ == close_position(old(strategy).active_positions@, position_id),
        final(strategy).key_levels@ == old(strategy).key_levels@,
        same_settings(*final(strategy), *old(strategy)),
{
    let ghost orig = strategy.active_positions@;
    let mut i: usize = 0;
    while i < strategy.active_positions.len()
        invariant
            strategy.active_positions@ == orig,
            i <= orig.len(),
            orig == old(strategy).active_positions@,
            strategy.key_levels@ == old(strategy).key_levels@,
            same_settings(*strategy, *old(strategy)),
            position_index(orig, position_id, 0) == position_index(orig, position_id, i as int),
        decreases orig.len() - i,
    {
        let position = strategy.active_positions[i];
        if position.position_id == position_id {
            strategy.active_positions.set(i, BreakoutPosition { status: PositionStatus::Closed, ..position });
            return;
        }
        i = i + 1;
    }
}

/// Positions with the same ids, index by index, have the same first index
/// for every id.
proof fn lemma_position_index_same_ids(a: Seq<BreakoutPosition>, b: Seq<BreakoutPosition>, position_id: u64, j: int)
    requires
        a.len() == b.len(),
        forall|k: int| 0 <= k < a.len() ==> #[trigger] a[k].position_id == b[k].position_id,
    ensures
        position_index(a, position_id, j) == position_index(b, position_id, j),
    decreases a.len() - j,
{
    if 0 <= j < a.len() {
        lemma_position_index_same_ids(a, b, position_id, j + 1);
    }
}

/// The first index found from `j` on is -1 or an index at or after `j`
/// whose position has the id.
proof fn lemma_position_index_range(ps: Seq<BreakoutPosition>, position_id: u64, j: int)
    requires
        0 <= j,
    ensures
        position_index(ps, position_id, j) == -1 || (j <= position_index(ps, position_id, j) < ps.len()
            && ps[position_index(ps, position_id, j)].position_id == position_id),
    decreases ps.len() - j,
{
    if j < ps.len() && ps[j].position_id != position_id {
        lemma_position_index_range(ps, position_id, j + 1);
    }
}

/// Closing a false breakout twice leaves the positions as closing it once.
pub proof fn law_false_breakout_idempotent(ps: Seq<BreakoutPosition>, position_id: u64)
    ensures
        close_position(close_position(ps, position_id), position_id) == close_position(ps, position_id),
{
    let once = close_position(ps, position_id);
    lemma_position_index_range(ps, position_id, 0);
    lemma_position_index_same_ids(once, ps, position_id, 0);
    assert(close_position(once, position_id) =~= once);
}

/// Open a position for `signal`, sized `position_size_pct` basis points of
/// `portfolio_value`; returns `position_id`.
pub fn execute_breakout_trade_on(
    strategy: &mut BreakoutStrategy,
    signal: &BreakoutSignal,
    portfolio_value: i128,
    position_id: u64,
) -> (r: u64)
    requires
        in_i128(portfolio_value * old(strategy).position_size_pct),
    ensures
        r == position_id,
        final(strategy).active_positions@ == old(strategy).active_positions@.push(BreakoutPosition {
            position_id,
            direction: signal.direction,
            breakout_level: signal.breakout_level,
            entry_price: signal.current_price,
            entry_volume: signal.volume_ratio as i128,
            stop_loss: signal.stop_loss,
            target_price: signal.target_price,
            amount: tdiv(portfolio_value * old(strategy).position_size_pct, 10_000) as i128,
            status: PositionStatus::Open,
            entry_time: 0,
        }),
        final(strategy).key_levels@ == old(strategy).key_levels@,
        same_settings(*final(strategy), *old(strategy)),
{
    let position_amount = (portfolio_value * strategy.position_size_pct as i128) / 10000;
    strategy.active_positions.push(BreakoutPosition {
        position_id,
        direction: signal.direction,
        breakout_level: signal.breakout_level,
        entry_price: signal.current_price,
        entry_volume: signal.volume_ratio as i128,
        stop_loss: signal.stop_loss,
        target_price: signal.target_price,
        amount: position_amount,
        status: PositionStatus::Open,
        entry_time: 0,
    });
    position_id
}

pub open spec fn relabel_level(l: PriceLevel, broken_level: i128, direction: BreakDirection) -> PriceLevel {
    if abs(l.price - broken_level) < level_tolerance(broken_level as int) {
        PriceLevel {
            level_type: match direction {
                BreakDirection::Upward => LevelType::Support,
                BreakDirection::Downward => LevelType::Resistance,
            },
            strength: (l.strength + 1) as u32,
            ..l
        }
    } else {
        l
    }
}

pub open spec fn relabel_fits(l: PriceLevel, broken_level: i128) -> bool {
    &&& in_i128(l.price - broken_level)
    &&& in_i128(abs(l.price - broken_level))
    &&& l.strength < u32::MAX
}

/// After a breakout, levels near the broken level swap role (resistance
/// becomes support and vice versa) and gain strength.
pub fn update_key_levels_on(strategy: &mut BreakoutStrategy, broken_level: i128, direction: BreakDirection)
    requires
        in_i128(broken_level * 20),
        forall|i: int| 0 <= i < old(strategy).key_levels@.len() ==> #[trigger] relabel_fits(old(strategy).key_levels@[i], broken_level),
    ensures
        final(strategy).key_levels@ == old(strategy).key_levels@.map_values(|l: PriceLevel| relabel_level(l, broken_level, direction)),
        final(strategy).active_positions@ == old(strategy).active_positions@,
        same_settings(*final(strategy), *old(strategy)),
{
    let tolerance = (broken_level * PRICE_LEVEL_TOLERANCE_BPS) / 10000;
    let ghost orig = strategy.key_levels@;
    let mut i: usize = 0;
    while i < strategy.key_levels.len()
        invariant
            strategy.key_levels@.len() == orig.len(),
            orig == old(strategy).key_levels@,
            i <= orig.len(),
            tolerance == level_tolerance(broken_level as int),
            forall|k: int| 0 <= k < orig.len() ==> #[trigger] relabel_fits(orig[k], broken_level),
            forall|k: int| 0 <= k < i ==> strategy.key_levels@[k] == relabel_level(orig[k], broken_level, direction),
            forall|k: int| i <= k < orig.len() ==> strategy.key_levels@[k] == orig[k],
            strategy.active_positions@ == old(strategy).active_positions@,
            same_settings(*strategy, *old(strategy)),
        decreases orig.len() - i,
    {
        let level = strategy.key_levels[i];
        assert(relabel_fits(orig[i as int], broken_level));
        let diff = level.price - broken_level;
        let d = if diff < 0 { -diff } else { diff };
        if d < tolerance {
            let new_type = match direction {
                BreakDirection::Upward => LevelType::Support,
                BreakDirection::Downward => LevelType::Resistance,
            };
            strategy.key_levels.set(i, PriceLevel { level_type: new_type, strength: level.strength + 1, ..level });
        }
        i = i + 1;
    }
    proof {
        assert(strategy.key_levels@ =~= orig.map_values(|l: PriceLevel| relabel_level(l, broken_level, direction)));
    }
}

// ---------------------------------------------------------------------------
// Performance
// ---------------------------------------------------------------------------

pub open spec fn pnl_bps(p: BreakoutPosition, price: i128) -> int {
    if p.entry_price > 0 { tdiv((price - p.entry_price) * 10_000, p.entry_price as int) } else { 0 }
}

pub open spec fn hit_target(p: BreakoutPosition, price: i128) -> bool {
    match p.direction {
        BreakDirection::Upward => price >= p.target_price,
        BreakDirection::Downward => price <= p.target_price,
    }
}

/// Totals over the closed positions: (successful, false, stopped out,
/// summed profit in basis points, summed entry volume).
pub open spec fn perf_totals(ps: Seq<BreakoutPosition>, price: i128) -> (int, int, int, int, int)
    decreases ps.len(),
{
    if ps.len() == 0 {
        (0, 0, 0, 0, 0)
    } else {
        let (s, f, st, profit, vol) = perf_totals(ps.drop_last(), price);
        let p = ps.last();
        if p.status == PositionStatus::Closed {
            let profit2 = profit + (pnl_bps(p, price) as i32) as int;
            let vol2 = vol + p.entry_volume;
            if is_false_breakout(p, price) {
                (s, f + 1, st, profit2, vol2)
            } else if hit_target(p, price) {
                (s + 1, f, st, profit2, vol2)
            } else {
                (s, f, st + 1, profit2, vol2)
            }
        } else {
            (s, f, st, profit, vol)
        }
    }
}

/// The running totals stay in range while the positions are summed.
pub open spec fn perf_fits(ps: Seq<BreakoutPosition>, price: i128) -> bool {
    &&& ps.len() <= i32::MAX
    &&& forall|i: int| 0 <= i < ps.len() ==> {
        &&& (#[trigger] ps[i]).entry_price > 0 ==> in_i128((price - ps[i].entry_price) * 10_000)
        &&& in_i128(price - ps[i].entry_price)
        &&& in_i32(perf_totals(ps.take(i + 1), price).3)
        &&& in_i128(perf_totals(ps.take(i + 1), price).4)
    }
}

pub open spec fn performance_of(ps: Seq<BreakoutPosition>, price: i128) -> BreakoutPerformance {
    let (s, f, st, profit, vol) = perf_totals(ps, price);
    let n = ps.len();
    BreakoutPerformance {
        total_breakouts_detected: n as u32,
        total_trades_executed: n as u32,
        successful_breakouts: s as u32,
        false_breakouts: f as u32,
        stopped_out: st as u32,
        avg_breakout_profit_pct: if n > 0 { tdiv(profit, n as int) as i32 } else { 0 },
        avg_volume_on_breakout: if n > 0 { tdiv(vol, n as int) as u32 } else { 0 },
    }
}

proof fn lemma_perf_counts(ps: Seq<BreakoutPosition>, price: i128)
    ensures
        0 <= perf_totals(ps, price).0,
        0 <= perf_totals(ps, price).1,
        0 <= perf_totals(ps, price).2,
        perf_totals(ps, price).0 + perf_totals(ps, price).1 + perf_totals(ps, price).2 <= ps.len(),
    decreases ps.len(),
{
    if ps.len() > 0 {
        lemma_perf_counts(ps.drop_last(), price);
    }
}

/// Performance over the strategy's positions, judging each closed position
/// at `current_price`: false breakout, target reached, or stopped out.
pub fn analyze_breakout_performance_on(strategy: &BreakoutStrategy, current_price: i128) -> (r: Result<BreakoutPerformance, AutoTradeError>)
    requires
        perf_fits(strategy.active_positions@, current_price),
    ensures
        r == Ok::<BreakoutPerformance, AutoTradeError>(performance_of(strategy.active_positions@, current_price)),
{
    let ps = &strategy.active_positions;
    let total_positions = ps.len() as u32;
    let mut successful: u32 = 0;
    let mut false_breakouts: u32 = 0;
    let mut stopped_out: u32 = 0;
    let mut total_profit_pct: i32 = 0;
    let mut total_volume: i128 = 0;
    let mut i: usize = 0;
    while i < ps.len()
        invariant
            i <= ps@.len(),
            ps@.len() <= i32::MAX,
            total_positions == ps@.len(),
            perf_fits(ps@, current_price),
            (successful as int, false_breakouts as int, stopped_out as int, total_profit_pct as int, total_volume as int)
                == perf_totals(ps@.take(i as int), current_price),
        decreases ps@.len() - i,
    {
        let position = ps[i];
        proof {
            assert(ps@.take(i + 1).drop_last() =~= ps@.take(i as int));
            assert(ps@.take(i + 1).last() == position);
            lemma_perf_counts(ps@.take(i as int), current_price);
            assert(in_i32(perf_totals(ps@.take(i + 1), current_price).3));
            assert(in_i128(perf_totals(ps@.take(i + 1), current_price).4));
            assert(position.entry_price > 0 ==> in_i128((current_price - position.entry_price) * 10_000));
        }
        if position.status == PositionStatus::Closed {
            let pnl_pct: i128 = if position.entry_price > 0 {
                ((current_price - position.entry_price) * 10000) / position.entry_price
            } else {
                0
            };
            total_profit_pct = total_profit_pct + pnl_pct as i32;
            total_volume = total_volume + position.entry_volume;
            if detect_false_breakout(&position, current_price) {
                false_breakouts = false_breakouts + 1;
            } else {
                let hit = match position.direction {
                    BreakDirection::Upward => current_price >= position.target_price,
                    BreakDirection::Downward => current_price <= position.target_price,
                };
                if hit {
                    successful = successful + 1;
                } else {
                    stopped_out = stopped_out + 1;
                }
            }
        }
        i = i + 1;
    }
    proof { assert(ps@.take(ps@.len() as int) =~= ps@); }
    let avg_profit_pct: i32 = if total_positions > 0 { total_profit_pct / total_positions as i32 } else { 0 };
    let avg_volume: u32 = if total_positions > 0 { (total_volume / total_positions as i128) as u32 } else { 0 };
    Ok(BreakoutPerformance {
        total_breakouts_detected: total_positions,
        total_trades_executed: total_positions,
        successful_breakouts: successful,
        false_breakouts,
        stopped_out,
        avg_breakout_profit_pct: avg_profit_pct,
        avg_volume_on_breakout: avg_volume,
    })
}


// ---------------------------------------------------------------------------
// Data sources and stored strategies
// ---------------------------------------------------------------------------

/// Historical candles for the pair; no candle history is kept yet, so none.
fn get_historical_candles(asset_pair: &AssetPair, lookback_seconds: u64, candle_duration_seconds: u64) -> (r: Result<Vec<Candle>, AutoTradeError>)
    ensures
        r matches Ok(v) && v@.len() == 0,
{
    Ok(Vec::new())
}

/// The latest candle for the pair; an all-zero candle until candles are kept.
fn get_latest_candle(asset_pair: &AssetPair, candle_duration_seconds: u64) -> (r: Result<Candle, AutoTradeError>)
    ensures
        r == Ok::<Candle, AutoTradeError>(Candle { timestamp: 0, open: 0, high: 0, low: 0, close: 0, volume: 0 }),
{
    Ok(Candle { timestamp: 0, open: 0, high: 0, low: 0, close: 0, volume: 0 })
}

/// The most recent candles; none until candles are kept.
fn get_recent_candles(asset_pair: &AssetPair, num_candles: u32, candle_duration_seconds: u64) -> (r: Result<Vec<Candle>, AutoTradeError>)
    ensures
        r matches Ok(v) && v@.len() == 0,
{
    Ok(Vec::new())
}

/// Average volume over the lookback; a fixed 1_000_000 until candles are kept.
fn calculate_average_volume(asset_pair: &AssetPair, lookback_days: u32) -> (r: Result<i128, AutoTradeError>)
    ensures
        r == Ok::<i128, AutoTradeError>(1_000_000),
{
    Ok(1_000_000)
}

/// Current price of the pair; 0 until a price source is connected.
fn get_current_price(asset_pair: &AssetPair) -> (r: Result<i128, AutoTradeError>)
    ensures
        r == Ok::<i128, AutoTradeError>(0),
{
    Ok(0)
}

/// Portfolio value of the user; a fixed 1_000_000 until portfolios are read.
fn get_portfolio_value(user: AccountId) -> (r: Result<i128, AutoTradeError>)
    ensures
        r == Ok::<i128, AutoTradeError>(1_000_000),
{
    Ok(1_000_000)
}

/// Breakout strategies are not stored yet: every lookup fails.
fn get_breakout_strategy(strategy_id: u64) -> (r: Result<BreakoutStrategy, AutoTradeError>)
    ensures
        r matches Err(e) && e == AutoTradeError::StrategyNotFound,
{
    Err(AutoTradeError::StrategyNotFound)
}

/// Hand out the id in `next_position_id` and advance the counter by one
/// (wrapping), so that an id differs from the one handed out just before it.
pub fn generate_position_id(next_position_id: &mut u64) -> (r: u64)
    ensures
        r == *old(next_position_id),
        *final(next_position_id) == (if *old(next_position_id) == u64::MAX { 0 } else { *old(next_position_id) + 1 }),
        *final(next_position_id) != r,
{
    let id = *next_position_id;
    *next_position_id = id.wrapping_add(1);
    id
}

/// Key levels of the pair over `lookback_days` of hourly candles. With no
/// candle history kept, there are fewer than 20 candles and this fails.
pub fn identify_key_levels(asset_pair: &AssetPair, lookback_days: u32) -> (r: Result<Vec<PriceLevel>, AutoTradeError>)
    ensures
        r matches Err(e) && e == AutoTradeError::InsufficientPriceHistory,
{
    let lookback_seconds = lookback_days as u64 * DEFAULT_LOOKBACK_SECONDS;
    let candles = get_historical_candles(asset_pair, lookback_seconds, CANDLE_DURATION_SECONDS)?;
    identify_key_levels_from(&candles)
}

/// Detect a breakout for a stored strategy (see `detect_breakout_with`).
/// No strategy is stored, so this reports `StrategyNotFound`.
pub fn detect_breakout(strategy_id: u64) -> (r: Result<Option<BreakoutSignal>, AutoTradeError>)
    ensures
        r matches Err(e) && e == AutoTradeError::StrategyNotFound,
{
    let strategy = get_breakout_strategy(strategy_id)?;
    let key_levels = identify_key_levels(&strategy.asset_pair, strategy.lookback_period_days)?;
    let current_candle = get_latest_candle(&strategy.asset_pair, CANDLE_DURATION_SECONDS)?;
    let avg_volume = calculate_average_volume(&strategy.asset_pair, strategy.lookback_period_days)?;
    let recent = get_recent_candles(&strategy.asset_pair, strategy.confirmation_candles, CANDLE_DURATION_SECONDS)?;
    detect_breakout_with(strategy.volume_multiplier, &key_levels, &current_candle, avg_volume, &recent)
}

/// Open a position for a stored strategy (see `execute_breakout_trade_on`).
/// No strategy is stored, so this reports `StrategyNotFound`.
pub fn execute_breakout_trade(strategy_id: u64, signal: &BreakoutSignal) -> (r: Result<u64, AutoTradeError>)
    ensures
        r matches Err(e) && e == AutoTradeError::StrategyNotFound,
{
    let mut strategy = get_breakout_strategy(strategy_id)?;
    let portfolio_value = get_portfolio_value(strategy.user)?;
    let position_id = generate_position_id(&mut strategy.next_position_id);
    Ok(execute_breakout_trade_on(&mut strategy, signal, portfolio_value, position_id))
}

/// Exit check for a stored strategy (see `check_breakout_exits_on`).
/// No strategy is stored, so this reports `StrategyNotFound`.
pub fn check_breakout_exits(strategy_id: u64) -> (r: Result<Vec<u64>, AutoTradeError>)
    ensures
        r matches Err(e) && e == AutoTradeError::StrategyNotFound,
{
    let mut strategy = get_breakout_strategy(strategy_id)?;
    let current_price = get_current_price(&strategy.asset_pair)?;
    Ok(check_breakout_exits_on(&mut strategy, current_price))
}

/// Close a false breakout of a stored strategy (see `handle_false_breakout_on`).
/// No strategy is stored, so this reports `StrategyNotFound`.
pub fn handle_false_breakout(strategy_id: u64, position_id: u64) -> (r: Result<(), AutoTradeError>)
    ensures
        r matches Err(e) && e == AutoTradeError::StrategyNotFound,
{
    let mut strategy = get_breakout_strategy(strategy_id)?;
    handle_false_breakout_on(&mut strategy, position_id);
    Ok(())
}

/// Relabel levels of a stored strategy after a breakout (see
/// `update_key_levels_on`). No strategy is stored, so this reports
/// `StrategyNotFound`.
pub fn update_key_levels_on_breakout(strategy_id: u64, broken_level: i128, direction: BreakDirection) -> (r: Result<(), AutoTradeError>)
    ensures
        r matches Err(e) && e == AutoTradeError::StrategyNotFound,
{
    let mut strategy = get_breakout_strategy(strategy_id)?;
    update_key_levels_on(&mut strategy, broken_level, direction);
    Ok(())
}

/// Performance of a stored strategy (see `analyze_breakout_performance_on`).
/// No strategy is stored, so this reports `StrategyNotFound`.
pub fn analyze_breakout_performance(strategy_id: u64) -> (r: Result<BreakoutPerformance, AutoTradeError>)
    ensures
        r matches Err(e) && e == AutoTradeError::StrategyNotFound,
{
    let strategy = get_breakout_strategy(strategy_id)?;
    let current_price = get_current_price(&strategy.asset_pair)?;
    analyze_breakout_performance_on(&strategy, current_price)
}

}
