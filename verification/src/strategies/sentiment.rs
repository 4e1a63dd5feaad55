//! Sentiment trading: scores from social, news, on-chain and signal-text
//! sources are weighted into one reading, decayed over time, and traded
//! when strong enough, with position size scaled by the sources' agreement.
use vstd::prelude::*;
use vstd::string::StringExecFns;
use crate::iceberg::AssetPair;
use crate::math::{abs, in_i32, is_floor_sqrt, newton_isqrt, sqrt_result, tdiv};
use crate::store::OrdMap;
use crate::AccountId;

verus! {

/// The persistent slots of the sentiment strategies.
#[derive(Clone, Copy, Debug, PartialEq, Eq, Structural)]
pub enum SentimentStorageKey {
    StrategyCounter,
    Strategy(u64),
    PositionCounter,
    Accuracy(u64),
    LastSentiment(u64),
}

pub const MIN_SENTIMENT_THRESHOLD: i32 = 1000;
pub const MAX_SENTIMENT_THRESHOLD: i32 = 9000;
pub const SCALE_FACTOR: i32 = 10000;
/// At most half the portfolio, in basis points.
pub const MAX_POSITION_SIZE_PCT: u32 = 5000;

#[derive(Clone, Copy, Debug, PartialEq, Eq, Structural)]
pub enum MetricType {
    ActiveAddresses,
    TransactionVolume,
    HolderConcentration,
    ExchangeInflows,
}

pub enum SentimentSource {
    Twitter(String),
    Reddit(String),
    OnChainMetrics(MetricType),
    NewsFeeds(String),
    SignalRationale,
}

#[derive(Clone, Copy, Debug, PartialEq, Eq, Structural)]
pub enum TradeDirection {
    Buy,
    Sell,
}

#[derive(Clone, Copy, Debug, PartialEq, Eq, Structural)]
pub struct SentimentPosition {
    pub position_id: u64,
    pub entry_sentiment: i32,
    pub entry_price: i128,
    pub amount: i128,
    pub entry_time: u64,
}

pub struct SentimentStrategy {
    pub strategy_id: u64,
    pub user: AccountId,
    pub asset_pair: AssetPair,
    pub sentiment_sources: Vec<SentimentSource>,
    pub sentiment_threshold: i32,
    pub tech_confirmation_required: bool,
    pub position_size_pct: u32,
    pub sentiment_decay_hours: u32,
    pub active_position: Option<SentimentPosition>,
    pub created_at: u64,
}

/// Scores by source name, each name once.
pub struct SentimentScore {
    pub overall_score: i32,
    pub confidence: u32,
    pub source_scores: Vec<(String, i32)>,
    pub aggregated_at: u64,
    pub decay_factor: u32,
}

pub struct SentimentSignal {
    pub direction: TradeDirection,
    pub sentiment_score: i32,
    pub confidence: u32,
    pub source_breakdown: Vec<(String, i32)>,
}

#[derive(Clone, Copy, Debug, PartialEq, Eq, Structural)]
pub struct SentimentAccuracy {
    pub strategy_id: u64,
    pub total_signals: u32,
    pub accurate_predictions: u32,
    pub false_positives: u32,
    pub false_negatives: u32,
    pub avg_sentiment_price_corr: i32,
}

// ---------------------------------------------------------------------------
// Small helpers
// ---------------------------------------------------------------------------

pub fn clamp(value: i32, min_val: i32, max_val: i32) -> (r: i32)
    ensures
        r == (if value < min_val { min_val } else if value > max_val { max_val } else { value }),
{
    if value < min_val {
        min_val
    } else if value > max_val {
        max_val
    } else {
        value
    }
}

pub fn max(a: i32, b: i32) -> (r: i32)
    ensures
        r == (if a > b { a } else { b }),
{
    if a > b { a } else { b }
}

pub fn min(a: u64, b: u64) -> (r: u64)
    ensures
        r == (if a < b { a } else { b }),
{
    if a < b { a } else { b }
}

/// Integer square root by Newton's iteration.
pub fn sqrt(n: u32) -> (r: u32)
    requires
        n < u32::MAX,
    ensures
        sqrt_result(n as int, r as int),
{
    if n == 0 {
        return 0;
    }
    let r = newton_isqrt(n as i128);
    assert(r <= n) by (nonlinear_arith)
        requires is_floor_sqrt(n as int, r as int), n >= 1;
    r as u32
}

// ---------------------------------------------------------------------------
// Reading the sign of a rationale's words
// ---------------------------------------------------------------------------

/// The text after `str::to_lowercase` (Unicode lowercase mapping).
pub uninterp spec fn lowercased(s: Seq<char>) -> Seq<char>;

/// `needle` occurs in `haystack` as a contiguous run of characters.
pub open spec fn has_substring(haystack: Seq<char>, needle: Seq<char>) -> bool {
    exists|i: int| 0 <= i && i + needle.len() <= haystack.len() && #[trigger] haystack.subrange(i, i + needle.len()) == needle
}

/// std's `str::to_lowercase`. Its result is taken as a function of the text
/// alone; what the Unicode mapping does to each character is not stated.
#[verifier::external_body]
fn to_lowercase(s: &str) -> (r: String)
    ensures
        r@ == lowercased(s@),
{
    s.to_lowercase()
}

/// std's `str::contains` with a string pattern: whether `needle` occurs in
/// `haystack` as a substring.
#[verifier::external_body]
fn str_contains(haystack: &str, needle: &str) -> (r: bool)
    ensures
        r == has_substring(haystack@, needle@),
{
    haystack.contains(needle)
}

pub open spec fn hit(t: Seq<char>, k: Seq<char>) -> int {
    if has_substring(t, k) { 1 } else { 0 }
}

pub open spec fn bullish_hits(t: Seq<char>) -> int {
    hit(t, "bullish"@) + hit(t, "buy"@) + hit(t, "breakout"@) + hit(t, "moon"@) + hit(t, "pump"@)
        + hit(t, "strong"@) + hit(t, "uptrend"@) + hit(t, "accumulate"@) + hit(t, "undervalued"@) + hit(t, "rally"@)
}

pub open spec fn bearish_hits(t: Seq<char>) -> int {
    hit(t, "bearish"@) + hit(t, "sell"@) + hit(t, "dump"@) + hit(t, "crash"@) + hit(t, "weak"@)
        + hit(t, "downtrend"@) + hit(t, "overvalued"@) + hit(t, "resistance"@) + hit(t, "distribution"@) + hit(t, "decline"@)
}

/// Net keyword count of the lowercased text, 2000 per keyword, within ±10000.
pub open spec fn rationale_score(text: Seq<char>) -> int {
    let t = lowercased(text);
    crate::math::clamp((bullish_hits(t) - bearish_hits(t)) * 2000, -10_000, 10_000)
}

fn hit_count(text: &str, keyword: &str) -> (r: i32)
    ensures
        r == hit(text@, keyword@),
{
    if str_contains(text, keyword) { 1 } else { 0 }
}

/// Sentiment of a free-text rationale from bullish and bearish keywords.
pub fn analyze_rationale_sentiment(rationale: &String) -> (r: Result<i32, String>)
    ensures
        r == Ok::<i32, String>(rationale_score(rationale@) as i32),
{
    let lower = to_lowercase(rationale.as_str());
    let text = lower.as_str();
    let bullish_count = hit_count(text, "bullish") + hit_count(text, "buy") + hit_count(text, "breakout")
        + hit_count(text, "moon") + hit_count(text, "pump") + hit_count(text, "strong")
        + hit_count(text, "uptrend") + hit_count(text, "accumulate") + hit_count(text, "undervalued")
        + hit_count(text, "rally");
    let bearish_count = hit_count(text, "bearish") + hit_count(text, "sell") + hit_count(text, "dump")
        + hit_count(text, "crash") + hit_count(text, "weak") + hit_count(text, "downtrend")
        + hit_count(text, "overvalued") + hit_count(text, "resistance") + hit_count(text, "distribution")
        + hit_count(text, "decline");
    let net_sentiment = (bullish_count - bearish_count) * 2000;
    Ok(clamp(net_sentiment, -SCALE_FACTOR, SCALE_FACTOR))
}


// ---------------------------------------------------------------------------
// Source readings
// ---------------------------------------------------------------------------

pub open spec fn source_name(src: &SentimentSource) -> Seq<char> {
    match src {
        SentimentSource::Twitter(_) => "twitter"@,
        SentimentSource::Reddit(_) => "reddit"@,
        SentimentSource::OnChainMetrics(_) => "onchain"@,
        SentimentSource::NewsFeeds(_) => "news"@,
        SentimentSource::SignalRationale => "signals"@,
    }
}

pub fn format_source_name(source: &SentimentSource) -> (r: String)
    ensures
        r@ == source_name(source),
{
    match source {
        SentimentSource::Twitter(_) => String::from_str("twitter"),
        SentimentSource::Reddit(_) => String::from_str("reddit"),
        SentimentSource::OnChainMetrics(_) => String::from_str("onchain"),
        SentimentSource::NewsFeeds(_) => String::from_str("news"),
        SentimentSource::SignalRationale => String::from_str("signals"),
    }
}

/// On-chain readings: more active addresses and volume are bullish, a
/// concentrated holder base bearish, net outflows from exchanges bullish.
pub open spec fn metric_score(m: MetricType) -> int {
    match m {
        MetricType::ActiveAddresses => 2500,
        MetricType::TransactionVolume => 2500,
        MetricType::HolderConcentration => -10_000,
        MetricType::ExchangeInflows => 20_000,
    }
}

/// The rationale text read for signal sentiment.
pub open spec fn signal_text() -> Seq<char> {
    "Bullish breakout expected with strong momentum"@
}

/// Score and weight (percent) of one source.
pub open spec fn source_reading(src: &SentimentSource) -> (int, int) {
    match src {
        SentimentSource::Twitter(_) => (5000, 30),
        SentimentSource::Reddit(_) => (6000, 25),
        SentimentSource::OnChainMetrics(m) => (metric_score(*m), 35),
        SentimentSource::NewsFeeds(_) => (5500, 10),
        SentimentSource::SignalRationale => (rationale_score(signal_text()), 10),
    }
}

fn calculate_active_addresses_sentiment(_asset_pair: &AssetPair) -> (r: i32)
    ensures r == metric_score(MetricType::ActiveAddresses),
{
    let current_addresses: u32 = 10000;
    let historical_avg: u32 = 8000;
    let change_pct = ((current_addresses as i32 - historical_avg as i32) * 100) / historical_avg as i32;
    clamp(change_pct * 100, -SCALE_FACTOR, SCALE_FACTOR)
}

fn calculate_transaction_volume_sentiment(_asset_pair: &AssetPair) -> (r: i32)
    ensures r == metric_score(MetricType::TransactionVolume),
{
    let current_volume: i128 = 1_000_000;
    let historical_avg: i128 = 800_000;
    let change_pct = ((current_volume - historical_avg) * 100) / historical_avg;
    clamp((change_pct * 100) as i32, -SCALE_FACTOR, SCALE_FACTOR)
}

fn calculate_holder_concentration_sentiment(_asset_pair: &AssetPair) -> (r: i32)
    ensures r == metric_score(MetricType::HolderConcentration),
{
    let top_10_pct: u32 = 4000;
    let ideal_pct: u32 = 3000;
    let diff = ideal_pct as i32 - top_10_pct as i32;
    clamp(diff * 100, -SCALE_FACTOR, SCALE_FACTOR)
}

fn calculate_exchange_inflows_sentiment(_asset_pair: &AssetPair) -> (r: i32)
    ensures r == metric_score(MetricType::ExchangeInflows),
{
    let inflows_24h: i128 = 500_000;
    let outflows_24h: i128 = 700_000;
    let net_flow = outflows_24h - inflows_24h;
    let total_supply: i128 = 10_000_000;
    let net_flow_pct = (net_flow * SCALE_FACTOR as i128) / total_supply;
    (net_flow_pct * 100) as i32
}

fn read_source(asset_pair: &AssetPair, source: &SentimentSource) -> (r: (i32, u32))
    ensures
        r.0 == source_reading(source).0,
        r.1 == source_reading(source).1,
{
    match source {
        SentimentSource::Twitter(_) => (5000, 30),
        SentimentSource::Reddit(_) => (6000, 25),
        SentimentSource::OnChainMetrics(metric_type) => {
            let score = match metric_type {
                MetricType::ActiveAddresses => calculate_active_addresses_sentiment(asset_pair),
                MetricType::TransactionVolume => calculate_transaction_volume_sentiment(asset_pair),
                MetricType::HolderConcentration => calculate_holder_concentration_sentiment(asset_pair),
                MetricType::ExchangeInflows => calculate_exchange_inflows_sentiment(asset_pair),
            };
            (score, 35)
        },
        SentimentSource::NewsFeeds(_) => (5500, 10),
        SentimentSource::SignalRationale => {
            let text = String::from_str("Bullish breakout expected with strong momentum");
            let score = match analyze_rationale_sentiment(&text) {
                Ok(v) => v,
                Err(_) => 0,
            };
            (score, 10)
        },
    }
}

// ---------------------------------------------------------------------------
// Scores by source name
// ---------------------------------------------------------------------------

pub open spec fn scores_view(v: Seq<(String, i32)>) -> Seq<(Seq<char>, i32)> {
    v.map_values(|e: (String, i32)| (e.0@, e.1))
}

pub open spec fn unique_names(s: Seq<(Seq<char>, i32)>) -> bool {
    forall|i: int, j: int| 0 <= i < j < s.len() ==> #[trigger] s[i].0 != #[trigger] s[j].0
}

pub open spec fn has_name(s: Seq<(Seq<char>, i32)>, k: Seq<char>) -> bool {
    exists|i: int| 0 <= i < s.len() && #[trigger] s[i].0 == k
}

/// `s` with `k` set to `v`: replaced in place, or appended when new.
pub open spec fn set_entry(s: Seq<(Seq<char>, i32)>, k: Seq<char>, v: i32) -> Seq<(Seq<char>, i32)> {
    if has_name(s, k) {
        s.update(choose|i: int| 0 <= i < s.len() && #[trigger] s[i].0 == k, (k, v))
    } else {
        s.push((k, v))
    }
}

fn set_score(entries: &mut Vec<(String, i32)>, name: String, score: i32)
    requires
        unique_names(scores_view(old(entries)@)),
    ensures
        scores_view(final(entries)@) == set_entry(scores_view(old(entries)@), name@, score),
        unique_names(scores_view(final(entries)@)),
{
    let ghost s = scores_view(entries@);
    let mut i: usize = 0;
    while i < entries.len()
        invariant
            i <= entries@.len(),
            s == scores_view(entries@),
            s == scores_view(old(entries)@),
            unique_names(s),
            forall|j: int| 0 <= j < i ==> #[trigger] s[j].0 != name@,
        decreases entries@.len() - i,
    {
        if entries[i].0 == name {
            proof {
                assert(s[i as int].0 == name@);
                assert(has_name(s, name@));
                let c = choose|c: int| 0 <= c < s.len() && #[trigger] s[c].0 == name@;
                if c != i as int {
                    if c < i { assert(s[c].0 != name@); } else { assert(s[i as int].0 != s[c].0); }
                }
                assert(c == i as int);
                assert(set_entry(s, name@, score) == s.update(i as int, (name@, score)));
            }
            let ghost nm = name@;
            entries.set(i, (name, score));
            proof {
                let t = scores_view(entries@);
                assert(t =~= s.update(i as int, (nm, score)));
            }
            return;
        }
        i = i + 1;
    }
    proof {
        assert(!has_name(s, name@));
    }
    let ghost nm = name@;
    entries.push((name, score));
    proof {
        assert(scores_view(entries@) =~= s.push((nm, score)));
    }
}

/// Per-source scores, weighted sum and total weight over the first `k` sources.
pub open spec fn agg(sources: Seq<SentimentSource>, k: int) -> (Seq<(Seq<char>, i32)>, int, int)
    decreases k,
{
    if k <= 0 {
        (Seq::empty(), 0, 0)
    } else {
        let prev = agg(sources, k - 1);
        let reading = source_reading(&sources[k - 1]);
        (set_entry(prev.0, source_name(&sources[k - 1]), reading.0 as i32), prev.1 + reading.0 * reading.1, prev.2 + reading.1)
    }
}

/// The weighted sums stay within their integer types.
pub open spec fn agg_fits(sources: Seq<SentimentSource>) -> bool {
    forall|k: int| 0 < k <= sources.len() ==> in_i32(#[trigger] agg(sources, k).1) && agg(sources, k).2 <= u32::MAX
}

pub open spec fn score_values(s: Seq<(Seq<char>, i32)>) -> Seq<i32> {
    s.map_values(|e: (Seq<char>, i32)| e.1)
}

pub open spec fn seq_sum(v: Seq<i32>) -> int
    decreases v.len(),
{
    if v.len() == 0 { 0 } else { seq_sum(v.drop_last()) + v.last() }
}

/// Sum of squared deviations from `mean`, each divided by `n`.
pub open spec fn var_sum(v: Seq<i32>, mean: int, n: int) -> int
    decreases v.len(),
{
    if v.len() == 0 { 0 } else { var_sum(v.drop_last(), mean, n) + (v.last() - mean) * (v.last() - mean) / n }
}

pub open spec fn mean_of(v: Seq<i32>) -> int {
    tdiv(seq_sum(v), v.len() as int)
}

/// The arithmetic of the agreement measure stays within `i32`.
pub open spec fn confidence_fits(v: Seq<i32>) -> bool {
    v.len() >= 2 ==> {
        &&& v.len() <= i32::MAX
        &&& forall|k: int| 0 <= k <= v.len() ==> in_i32(#[trigger] seq_sum(v.take(k)))
        &&& forall|i: int| 0 <= i < v.len() ==> in_i32(#[trigger] v[i] - mean_of(v))
        &&& forall|i: int| 0 <= i < v.len() ==> in_i32((#[trigger] v[i] - mean_of(v)) * (v[i] - mean_of(v)))
        &&& forall|k: int| 0 <= k <= v.len() ==> in_i32(#[trigger] var_sum(v.take(k), mean_of(v), v.len() as int))
    }
}

/// Agreement between sources in basis points: 10000 less a tenth of the
/// standard deviation, never below zero; 5000 with fewer than two sources.
pub open spec fn confidence_of(v: Seq<i32>, std_dev: int) -> int {
    if v.len() < 2 {
        5000
    } else if std_dev == 0 {
        10_000
    } else {
        crate::math::max(0, 10_000 - tdiv(std_dev, 10))
    }
}

pub open spec fn deviation(v: Seq<i32>) -> int {
    var_sum(v, mean_of(v), v.len() as int)
}

/// Agreement of the per-source scores.
pub fn calculate_sentiment_confidence(source_scores: &Vec<(String, i32)>) -> (r: Result<u32, String>)
    requires
        confidence_fits(score_values(scores_view(source_scores@))),
    ensures
        ({
            let v = score_values(scores_view(source_scores@));
            r matches Ok(c) && (v.len() < 2 ==> c == 5000)
                && (v.len() >= 2 ==> exists|sd: int| sqrt_result(deviation(v), sd) && c == confidence_of(v, sd))
        }),
{
    let ghost v = score_values(scores_view(source_scores@));
    let count = source_scores.len();
    if count < 2 {
        return Ok(5000);
    }
    let mut sum: i32 = 0;
    let mut i: usize = 0;
    while i < count
        invariant
            count == source_scores@.len(),
            count == v.len(),
            v == score_values(scores_view(source_scores@)),
            confidence_fits(v),
            count >= 2,
            i <= count,
            sum == seq_sum(v.take(i as int)),
        decreases count - i,
    {
        assert(v.take(i + 1).drop_last() =~= v.take(i as int));
        assert(in_i32(seq_sum(v.take(i + 1))));
        sum = sum + source_scores[i].1;
        i = i + 1;
    }
    assert(v.take(count as int) =~= v);
    let n = count as i32;
    assert(in_i32(seq_sum(v.take(count as int))));
    let mean = sum / n;
    assert(mean == mean_of(v));
    let mut variance_sum: i32 = 0;
    let mut j: usize = 0;
    while j < count
        invariant
            count == source_scores@.len(),
            count == v.len(),
            n == count,
            count >= 2,
            v == score_values(scores_view(source_scores@)),
            confidence_fits(v),
            mean == mean_of(v),
            j <= count,
            variance_sum == var_sum(v.take(j as int), mean as int, n as int),
        decreases count - j,
    {
        assert(v.take(j + 1).drop_last() =~= v.take(j as int));
        let score = source_scores[j].1;
        assert(score == v[j as int]);
        assert(in_i32((v[j as int] - mean_of(v)) * (v[j as int] - mean_of(v))));
        assert(in_i32(v[j as int] - mean_of(v)));
        let diff = score - mean;
        assert(in_i32(var_sum(v.take(j + 1), mean_of(v), v.len() as int)));
        assert(diff * diff >= 0) by (nonlinear_arith);
        variance_sum = variance_sum + (diff * diff) / n;
        j = j + 1;
    }
    assert(v.take(count as int) =~= v);
    assert(variance_sum >= 0) by {
        lemma_var_sum_nonneg(v, mean as int, n as int);
    }
    let std_dev = sqrt(variance_sum as u32);
    assert(std_dev <= 46341) by (nonlinear_arith)
        requires sqrt_result(variance_sum as int, std_dev as int), variance_sum <= i32::MAX;
    assert(variance_sum == deviation(v));
    let confidence: i32 = if std_dev == 0 {
        10000
    } else {
        max(0, 10000 - (std_dev as i32 / 10))
    };
    assert(sqrt_result(deviation(v), std_dev as int) && confidence == confidence_of(v, std_dev as int));
    Ok(confidence as u32)
}

proof fn lemma_var_sum_nonneg(v: Seq<i32>, mean: int, n: int)
    requires
        n > 0,
    ensures
        var_sum(v, mean, n) >= 0,
    decreases v.len(),
{
    if v.len() > 0 {
        lemma_var_sum_nonneg(v.drop_last(), mean, n);
        let d = v.last() - mean;
        assert(d * d >= 0) by (nonlinear_arith);
        assert(d * d / n >= 0) by (nonlinear_arith) requires d * d >= 0, n > 0;
    }
}


// ---------------------------------------------------------------------------
// Aggregation
// ---------------------------------------------------------------------------

/// The arithmetic of aggregating these sources stays within range.
pub open spec fn sources_fit(sources: Seq<SentimentSource>) -> bool {
    &&& agg_fits(sources)
    &&& agg(sources, sources.len() as int).2 <= i32::MAX
    &&& confidence_fits(score_values(agg(sources, sources.len() as int).0))
}

/// Weighted mean of the source scores, rounded toward zero.
pub open spec fn overall_of(sources: Seq<SentimentSource>) -> int {
    let a = agg(sources, sources.len() as int);
    if a.2 > 0 { tdiv(a.1, a.2) } else { 0 }
}

fn aggregate_scores(asset_pair: &AssetPair, sources: &Vec<SentimentSource>) -> (r: (Vec<(String, i32)>, i32, u32))
    requires
        agg_fits(sources@),
    ensures
        scores_view(r.0@) == agg(sources@, sources@.len() as int).0,
        r.1 == agg(sources@, sources@.len() as int).1,
        r.2 == agg(sources@, sources@.len() as int).2,
{
    let mut source_scores: Vec<(String, i32)> = Vec::new();
    let mut total_weight: u32 = 0;
    let mut weighted_sum: i32 = 0;
    let mut i: usize = 0;
    proof { assert(scores_view(source_scores@) =~= Seq::<(Seq<char>, i32)>::empty()); }
    while i < sources.len()
        invariant
            i <= sources@.len(),
            agg_fits(sources@),
            scores_view(source_scores@) == agg(sources@, i as int).0,
            unique_names(scores_view(source_scores@)),
            weighted_sum == agg(sources@, i as int).1,
            total_weight == agg(sources@, i as int).2,
        decreases sources@.len() - i,
    {
        let source = &sources[i];
        let (score, weight) = read_source(asset_pair, source);
        let source_name = format_source_name(source);
        set_score(&mut source_scores, source_name, score);
        proof {
            assert(in_i32(agg(sources@, i + 1).1));
            assert(score * weight <= 20_000 * 35 && score * weight >= -10_000 * 35) by (nonlinear_arith)
                requires -10_000 <= score <= 20_000, 0 <= weight <= 35;
        }
        weighted_sum = weighted_sum + score * weight as i32;
        total_weight = total_weight + weight;
        i = i + 1;
    }
    (source_scores, weighted_sum, total_weight)
}

impl SentimentBook {
    /// Weighted sentiment of the strategy's sources, with their agreement.
    pub fn aggregate_sentiment(&self, strategy_id: u64, now: u64) -> (r: Result<SentimentScore, String>)
        requires
            self.strategies@.contains_key(strategy_id as u128) ==> sources_fit(self.strategies@[strategy_id as u128].sentiment_sources@),
        ensures
            !self.strategies@.contains_key(strategy_id as u128) ==> (r matches Err(e) && e@ == "Strategy not found"@),
            self.strategies@.contains_key(strategy_id as u128) ==> (r matches Ok(sc) && self.aggregated(strategy_id, now, sc)),
    {
        let strategy = match self.strategies.get(strategy_id as u128) {
            Some(s) => s,
            None => return Err(String::from_str("Strategy not found")),
        };
        let (source_scores, weighted_sum, total_weight) = aggregate_scores(&strategy.asset_pair, &strategy.sentiment_sources);
        let overall_score = if total_weight > 0 {
            weighted_sum / total_weight as i32
        } else {
            0
        };
        let confidence = match calculate_sentiment_confidence(&source_scores) {
            Ok(c) => c,
            Err(_) => 0,
        };
        Ok(SentimentScore {
            overall_score,
            confidence,
            source_scores,
            aggregated_at: now,
            decay_factor: SCALE_FACTOR as u32,
        })
    }

    /// `sc` is the aggregation of the strategy's sources at `now`.
    pub open spec fn aggregated(&self, strategy_id: u64, now: u64, sc: SentimentScore) -> bool {
        let sources = self.strategies@[strategy_id as u128].sentiment_sources@;
        let entries = agg(sources, sources.len() as int).0;
        let v = score_values(entries);
        &&& sc.overall_score == overall_of(sources)
        &&& scores_view(sc.source_scores@) == entries
        &&& sc.aggregated_at == now
        &&& sc.decay_factor == 10_000
        &&& (v.len() < 2 ==> sc.confidence == 5000)
        &&& (v.len() >= 2 ==> exists|sd: int| sqrt_result(deviation(v), sd) && sc.confidence == confidence_of(v, sd))
    }
}

/// Strategies by id with their accuracy records and latest readings.
pub struct SentimentBook {
    pub strategies: OrdMap<SentimentStrategy>,
    pub accuracy: OrdMap<SentimentAccuracy>,
    pub last_sentiment: OrdMap<SentimentScore>,
    pub strategy_counter: u64,
    pub position_counter: u64,
}


// ---------------------------------------------------------------------------
// Decay
// ---------------------------------------------------------------------------

pub open spec fn elapsed_hours(aggregated_at: u64, now: u64) -> int {
    (now - aggregated_at) / 3600
}

/// Linear decay: the factor falls from 10000 to 0 over `decay_hours`.
pub open spec fn decay_factor_after(hours: int, decay_hours: int) -> int {
    10_000 - crate::math::min(10_000, hours * 10_000 / decay_hours)
}

pub open spec fn decay_fits(score: &SentimentScore, decay_hours: u32, now: u64) -> bool {
    let h = elapsed_hours(score.aggregated_at, now);
    &&& now >= score.aggregated_at
    &&& h > 0 ==> {
        &&& decay_hours > 0
        &&& h * 10_000 <= u64::MAX
        &&& in_i32(score.overall_score * decay_factor_after(h, decay_hours as int))
    }
}

/// Scale the score down by the time passed since it was aggregated.
pub fn apply_sentiment_decay(sentiment_score: &mut SentimentScore, decay_hours: u32, now: u64) -> (r: Result<(), String>)
    requires
        decay_fits(&*old(sentiment_score), decay_hours, now),
    ensures
        r is Ok,
        final(sentiment_score).confidence == old(sentiment_score).confidence,
        final(sentiment_score).source_scores@ == old(sentiment_score).source_scores@,
        final(sentiment_score).aggregated_at == old(sentiment_score).aggregated_at,
        ({
            let h = elapsed_hours(old(sentiment_score).aggregated_at, now);
            let f = decay_factor_after(h, decay_hours as int);
            if h > 0 {
                &&& final(sentiment_score).decay_factor == f
                &&& final(sentiment_score).overall_score == tdiv(old(sentiment_score).overall_score * f, 10_000)
            } else {
                &&& final(sentiment_score).decay_factor == old(sentiment_score).decay_factor
                &&& final(sentiment_score).overall_score == old(sentiment_score).overall_score
            }
        }),
{
    let elapsed_seconds = now - sentiment_score.aggregated_at;
    let elapsed_hours = elapsed_seconds / 3600;
    if elapsed_hours > 0 {
        let decay_pct = min(SCALE_FACTOR as u64, (elapsed_hours * SCALE_FACTOR as u64) / decay_hours as u64);
        sentiment_score.decay_factor = (SCALE_FACTOR as u64 - decay_pct) as u32;
        sentiment_score.overall_score = (sentiment_score.overall_score * sentiment_score.decay_factor as i32) / SCALE_FACTOR;
    }
    Ok(())
}

fn copy_scores(v: &Vec<(String, i32)>) -> (r: Vec<(String, i32)>)
    ensures
        r@ == v@,
{
    let mut out: Vec<(String, i32)> = Vec::new();
    let mut i: usize = 0;
    while i < v.len()
        invariant
            i <= v@.len(),
            out@ == v@.take(i as int),
        decreases v@.len() - i,
    {
        let name = v[i].0.clone();
        out.push((name, v[i].1));
        i = i + 1;
        proof { assert(out@ =~= v@.take(i as int)); }
    }
    proof { assert(v@.take(v@.len() as int) =~= v@); }
    out
}

/// The technical read that must agree with a sentiment trade: RSI above 50
/// and a bullish MACD for a long, RSI below 50 and a bearish MACD for a short.
/// The reading is fixed at an RSI of 55% with a bullish MACD, so a long is
/// confirmed and a short is not.
pub open spec fn technically_confirmed(is_bullish: bool) -> bool {
    let rsi = 5500int;
    let macd_bullish = true;
    if is_bullish { rsi > 5000 && macd_bullish } else { rsi < 5000 && !macd_bullish }
}

fn check_technical_confirmation(_asset_pair: &AssetPair, is_bullish: bool) -> (r: Result<bool, String>)
    ensures
        r == Ok::<bool, String>(technically_confirmed(is_bullish)),
{
    let rsi: u32 = 5500;
    let macd_bullish = true;
    if is_bullish {
        Ok(rsi > 5000 && macd_bullish)
    } else {
        Ok(rsi < 5000 && !macd_bullish)
    }
}

pub open spec fn fresh_accuracy(strategy_id: u64) -> SentimentAccuracy {
    SentimentAccuracy {
        strategy_id,
        total_signals: 0,
        accurate_predictions: 0,
        false_positives: 0,
        false_negatives: 0,
        avg_sentiment_price_corr: 0,
    }
}

/// The record after one closed position: was the sentiment's sign the
/// price move's sign?
pub open spec fn accuracy_after(a: SentimentAccuracy, entry_sentiment: i32, pnl: int) -> SentimentAccuracy {
    let predicted = entry_sentiment > 0;
    let actual = pnl > 0;
    let total = (a.total_signals + 1) as u32;
    let accurate = if predicted == actual { (a.accurate_predictions + 1) as u32 } else { a.accurate_predictions };
    SentimentAccuracy {
        total_signals: total,
        accurate_predictions: accurate,
        false_positives: if predicted != actual && predicted { (a.false_positives + 1) as u32 } else { a.false_positives },
        false_negatives: if predicted != actual && !predicted { (a.false_negatives + 1) as u32 } else { a.false_negatives },
        avg_sentiment_price_corr: (accurate * 10_000 / total as int) as i32,
        ..a
    }
}

pub open spec fn accuracy_room(a: SentimentAccuracy) -> bool {
    &&& a.accurate_predictions <= a.total_signals
    &&& a.total_signals < u32::MAX
    &&& a.false_positives < u32::MAX
    &&& a.false_negatives < u32::MAX
    &&& (a.accurate_predictions + 1) * 10_000 <= u32::MAX
}

impl SentimentBook {
    pub fn new() -> (b: Self)
        ensures
            b.strategies@ == Map::<u128, SentimentStrategy>::empty(),
            b.accuracy@ == Map::<u128, SentimentAccuracy>::empty(),
            b.last_sentiment@ == Map::<u128, SentimentScore>::empty(),
            b.strategy_counter == 0,
            b.position_counter == 0,
    {
        SentimentBook {
            strategies: OrdMap::new(),
            accuracy: OrdMap::new(),
            last_sentiment: OrdMap::new(),
            strategy_counter: 0,
            position_counter: 0,
        }
    }

    /// Register a strategy after checking its parameters; its accuracy
    /// record starts at zero.
    pub fn create_sentiment_strategy(
        &mut self,
        user: AccountId,
        asset_pair: AssetPair,
        sentiment_sources: Vec<SentimentSource>,
        sentiment_threshold: i32,
        tech_confirmation_required: bool,
        position_size_pct: u32,
        sentiment_decay_hours: u32,
        now: u64,
    ) -> (r: Result<u64, String>)
        requires
            old(self).strategy_counter < u64::MAX,
        ensures
            sentiment_sources@.len() == 0 ==> (r matches Err(e) && e@ == "No sentiment sources"@),
            sentiment_sources@.len() != 0 && (sentiment_threshold < MIN_SENTIMENT_THRESHOLD || sentiment_threshold > MAX_SENTIMENT_THRESHOLD)
                ==> (r matches Err(e) && e@ == "Invalid sentiment threshold"@),
            sentiment_sources@.len() != 0 && MIN_SENTIMENT_THRESHOLD <= sentiment_threshold <= MAX_SENTIMENT_THRESHOLD
                && (position_size_pct == 0 || position_size_pct > MAX_POSITION_SIZE_PCT)
                ==> (r matches Err(e) && e@ == "Invalid position size"@),
            sentiment_sources@.len() != 0 && MIN_SENTIMENT_THRESHOLD <= sentiment_threshold <= MAX_SENTIMENT_THRESHOLD
                && 0 < position_size_pct <= MAX_POSITION_SIZE_PCT && sentiment_decay_hours == 0
                ==> (r matches Err(e) && e@ == "Invalid decay hours"@),
            r is Err ==> {
                &&& final(self).strategies@ == old(self).strategies@
                &&& final(self).accuracy@ == old(self).accuracy@
                &&& final(self).strategy_counter == old(self).strategy_counter
            },
            final(self).last_sentiment@ == old(self).last_sentiment@,
            final(self).position_counter == old(self).position_counter,
            r is Ok ==> {
                let id = (old(self).strategy_counter + 1) as u64;
                &&& r == Ok::<u64, String>(id)
                &&& sentiment_sources@.len() != 0
                &&& MIN_SENTIMENT_THRESHOLD <= sentiment_threshold <= MAX_SENTIMENT_THRESHOLD
                &&& 0 < position_size_pct <= MAX_POSITION_SIZE_PCT
                &&& sentiment_decay_hours > 0
                &&& final(self).strategy_counter == id
                &&& final(self).strategies@ == old(self).strategies@.insert(id as u128, SentimentStrategy {
                        strategy_id: id,
                        user,
                        asset_pair,
                        sentiment_sources,
                        sentiment_threshold,
                        tech_confirmation_required,
                        position_size_pct,
                        sentiment_decay_hours,
                        active_position: None,
                        created_at: now,
                    })
                &&& final(self).accuracy@ == old(self).accuracy@.insert(id as u128, fresh_accuracy(id))
            },
    {
        if sentiment_sources.len() == 0 {
            return Err(String::from_str("No sentiment sources"));
        }
        if sentiment_threshold < MIN_SENTIMENT_THRESHOLD || sentiment_threshold > MAX_SENTIMENT_THRESHOLD {
            return Err(String::from_str("Invalid sentiment threshold"));
        }
        if position_size_pct == 0 || position_size_pct > MAX_POSITION_SIZE_PCT {
            return Err(String::from_str("Invalid position size"));
        }
        if sentiment_decay_hours == 0 {
            return Err(String::from_str("Invalid decay hours"));
        }
        self.strategy_counter = self.strategy_counter + 1;
        let strategy_id = self.strategy_counter;
        let strategy = SentimentStrategy {
            strategy_id,
            user,
            asset_pair,
            sentiment_sources,
            sentiment_threshold,
            tech_confirmation_required,
            position_size_pct,
            sentiment_decay_hours,
            active_position: None,
            created_at: now,
        };
        self.strategies.insert(strategy_id as u128, strategy);
        let accuracy = SentimentAccuracy {
            strategy_id,
            total_signals: 0,
            accurate_predictions: 0,
            false_positives: 0,
            false_negatives: 0,
            avg_sentiment_price_corr: 0,
        };
        self.accuracy.insert(strategy_id as u128, accuracy);
        Ok(strategy_id)
    }

    /// The strategy's reading can be aggregated and decayed at `now`.
    pub open spec fn reading_fits(&self, strategy_id: u64, now: u64) -> bool {
        let st = self.strategies@[strategy_id as u128];
        self.strategies@.contains_key(strategy_id as u128) ==> {
            &&& sources_fit(st.sentiment_sources@)
            &&& forall|sc: SentimentScore| #[trigger] self.aggregated(strategy_id, now, sc) ==> decay_fits(&sc, st.sentiment_decay_hours, now)
        }
    }

    /// Aggregate, decay and remember the strategy's sentiment; signal a
    /// trade when it is strong enough and, if required, technically confirmed.
    pub fn check_sentiment_signal(&mut self, strategy_id: u64, now: u64) -> (r: Result<Option<SentimentSignal>, String>)
        requires
            old(self).reading_fits(strategy_id, now),
        ensures
            final(self).strategies@ == old(self).strategies@,
            final(self).accuracy@ == old(self).accuracy@,
            final(self).strategy_counter == old(self).strategy_counter,
            final(self).position_counter == old(self).position_counter,
            !old(self).strategies@.contains_key(strategy_id as u128) ==> (r matches Err(e) && e@ == "Strategy not found"@),
            ({
                let st = old(self).strategies@[strategy_id as u128];
                old(self).strategies@.contains_key(strategy_id as u128) && st.active_position is Some ==> {
                    &&& r matches Ok(None)
                    &&& final(self).last_sentiment@ == old(self).last_sentiment@
                }
            }),
            ({
                let st = old(self).strategies@[strategy_id as u128];
                old(self).strategies@.contains_key(strategy_id as u128) && st.active_position is None ==> {
                    &&& final(self).last_sentiment@.dom() == old(self).last_sentiment@.dom().insert(strategy_id as u128)
                    &&& forall|k: u128| k != strategy_id as u128 && #[trigger] old(self).last_sentiment@.contains_key(k)
                            ==> final(self).last_sentiment@[k] == old(self).last_sentiment@[k]
                    &&& exists|sc: SentimentScore| #[trigger] old(self).aggregated(strategy_id, now, sc)
                        && decayed(sc, final(self).last_sentiment@[strategy_id as u128], st.sentiment_decay_hours, now)
                    &&& ({
                        let last = final(self).last_sentiment@[strategy_id as u128];
                        if abs(last.overall_score as int) < st.sentiment_threshold
                            || (st.tech_confirmation_required && !technically_confirmed(last.overall_score > 0)) {
                            r matches Ok(None)
                        } else {
                            r matches Ok(Some(sig))
                                && sig.direction == (if last.overall_score > 0 { TradeDirection::Buy } else { TradeDirection::Sell })
                                && sig.sentiment_score == last.overall_score
                                && sig.confidence == last.confidence
                                && sig.source_breakdown@ == last.source_scores@
                        }
                    })
                }
            }),
    {
        let strategy = match self.strategies.get(strategy_id as u128) {
            Some(s) => s,
            None => return Err(String::from_str("Strategy not found")),
        };
        if strategy.active_position.is_some() {
            return Ok(None);
        }
        let threshold = strategy.sentiment_threshold;
        let tech_required = strategy.tech_confirmation_required;
        let decay_hours = strategy.sentiment_decay_hours;
        let mut sentiment = match self.aggregate_sentiment(strategy_id, now) {
            Ok(sc) => sc,
            Err(e) => return Err(e),
        };
        let ghost agg_sc = sentiment;
        assert(self.aggregated(strategy_id, now, agg_sc));
        let _ = apply_sentiment_decay(&mut sentiment, decay_hours, now);
        assert(decayed(agg_sc, sentiment, decay_hours, now));
        let overall = sentiment.overall_score;
        let confidence = sentiment.confidence;
        let breakdown = copy_scores(&sentiment.source_scores);
        let ghost stored = sentiment;
        self.last_sentiment.insert(strategy_id as u128, sentiment);
        assert(overall != i32::MIN) by {
            lemma_overall_not_min(self.strategies@[strategy_id as u128].sentiment_sources@);
            lemma_decayed_bounds(agg_sc, stored, decay_hours, now);
        }
        let magnitude = if overall < 0 { -overall } else { overall };
        if magnitude < threshold {
            return Ok(None);
        }
        if tech_required {
            let confirmed = match check_technical_confirmation(&self.strategies.get(strategy_id as u128).unwrap().asset_pair, overall > 0) {
                Ok(c) => c,
                Err(e) => return Err(e),
            };
            if !confirmed {
                return Ok(None);
            }
        }
        Ok(Some(SentimentSignal {
            direction: if overall > 0 { TradeDirection::Buy } else { TradeDirection::Sell },
            sentiment_score: overall,
            confidence,
            source_breakdown: breakdown,
        }))
    }
}

/// `after` is `before` decayed at `now` over `decay_hours`.
pub open spec fn decayed(before: SentimentScore, after: SentimentScore, decay_hours: u32, now: u64) -> bool {
    let h = elapsed_hours(before.aggregated_at, now);
    let f = decay_factor_after(h, decay_hours as int);
    &&& after.confidence == before.confidence
    &&& after.source_scores@ == before.source_scores@
    &&& after.aggregated_at == before.aggregated_at
    &&& (h > 0 ==> after.decay_factor == f && after.overall_score == tdiv(before.overall_score * f, 10_000))
    &&& (h <= 0 ==> after.decay_factor == before.decay_factor && after.overall_score == before.overall_score)
}

proof fn lemma_weight_grows(sources: Seq<SentimentSource>, k: int)
    requires
        0 <= k <= sources.len(),
    ensures
        agg(sources, k).2 >= 10 * k,
    decreases k,
{
    if k > 0 {
        lemma_weight_grows(sources, k - 1);
    }
}

proof fn lemma_overall_not_min(sources: Seq<SentimentSource>)
    requires
        sources_fit(sources),
    ensures
        overall_of(sources) != i32::MIN,
{
    let n = sources.len() as int;
    let a = agg(sources, n);
    if a.2 > 0 {
        lemma_weight_grows(sources, n);
        if n == 0 {
            assert(a.2 == 0);
        } else {
            assert(in_i32(agg(sources, n).1));
            assert(a.2 >= 10);
            assert(abs(tdiv(a.1, a.2)) <= abs(a.1) / 10) by (nonlinear_arith)
                requires a.2 >= 10;
        }
    }
}

proof fn lemma_decayed_bounds(before: SentimentScore, after: SentimentScore, decay_hours: u32, now: u64)
    requires
        decayed(before, after, decay_hours, now),
        elapsed_hours(before.aggregated_at, now) > 0 ==> decay_hours > 0,
        before.overall_score != i32::MIN,
    ensures
        after.overall_score != i32::MIN,
{
    let h = elapsed_hours(before.aggregated_at, now);
    if h > 0 {
        let f = decay_factor_after(h, decay_hours as int);
        assert(0 <= f <= 10_000);
        assert(abs(tdiv(before.overall_score * f, 10_000)) <= abs(before.overall_score as int)) by (nonlinear_arith)
            requires 0 <= f <= 10_000;
    }
}


impl SentimentBook {
    /// Open a position sized by the strategy's share of the portfolio and
    /// the signal's confidence.
    pub fn execute_sentiment_trade(&mut self, strategy_id: u64, signal: SentimentSignal, now: u64) -> (r: Result<u64, String>)
        requires
            old(self).position_counter < u64::MAX,
        ensures
            final(self).accuracy@ == old(self).accuracy@,
            final(self).last_sentiment@ == old(self).last_sentiment@,
            final(self).strategy_counter == old(self).strategy_counter,
            !old(self).strategies@.contains_key(strategy_id as u128) ==> {
                &&& r matches Err(e) && e@ == "Strategy not found"@
                &&& final(self).strategies@ == old(self).strategies@
                &&& final(self).position_counter == old(self).position_counter
            },
            old(self).strategies@.contains_key(strategy_id as u128) ==> {
                let st = old(self).strategies@[strategy_id as u128];
                let id = (old(self).position_counter + 1) as u64;
                let base = 1_000_000 * st.position_size_pct / 10_000;
                &&& r == Ok::<u64, String>(id)
                &&& final(self).position_counter == id
                &&& final(self).strategies@ == old(self).strategies@.insert(strategy_id as u128, SentimentStrategy {
                        active_position: Some(SentimentPosition {
                            position_id: id,
                            entry_sentiment: signal.sentiment_score,
                            entry_price: 100_000,
                            amount: (base * signal.confidence / 10_000) as i128,
                            entry_time: now,
                        }),
                        ..st
                    })
            },
    {
        let mut strategy = match self.strategies.remove(strategy_id as u128) {
            Some(s) => s,
            None => return Err(String::from_str("Strategy not found")),
        };
        let portfolio_value: i128 = 1_000_000;
        let confidence_multiplier = signal.confidence as i128;
        let base_size = (portfolio_value * strategy.position_size_pct as i128) / SCALE_FACTOR as i128;
        assert(0 <= base_size <= 1_000_000 * 0xffff_ffff) by (nonlinear_arith)
            requires base_size == (1_000_000 * strategy.position_size_pct) / 10000, strategy.position_size_pct <= 0xffff_ffff;
        assert(0 <= base_size * confidence_multiplier <= 1_000_000 * 0xffff_ffff * 0xffff_ffff) by (nonlinear_arith)
            requires 0 <= base_size <= 1_000_000 * 0xffff_ffff, 0 <= confidence_multiplier <= 0xffff_ffff;
        let position_amount = (base_size * confidence_multiplier) / SCALE_FACTOR as i128;
        let current_price: i128 = 100_000;
        self.position_counter = self.position_counter + 1;
        let position_id = self.position_counter;
        strategy.active_position = Some(SentimentPosition {
            position_id,
            entry_sentiment: signal.sentiment_score,
            entry_price: current_price,
            amount: position_amount,
            entry_time: now,
        });
        self.strategies.insert(strategy_id as u128, strategy);
        proof {
            assert(self.strategies@ =~= old(self).strategies@.insert(strategy_id as u128, self.strategies@[strategy_id as u128]));
        }
        Ok(position_id)
    }

    /// Score a closed position against the price it exited at.
    pub fn track_sentiment_accuracy(&mut self, strategy_id: u64, position: &SentimentPosition, exit_price: i128) -> (r: Result<(), String>)
        requires
            crate::math::in_i128(exit_price - position.entry_price),
            old(self).accuracy@.contains_key(strategy_id as u128) ==> accuracy_room(old(self).accuracy@[strategy_id as u128]),
        ensures
            final(self).strategies@ == old(self).strategies@,
            final(self).last_sentiment@ == old(self).last_sentiment@,
            final(self).strategy_counter == old(self).strategy_counter,
            final(self).position_counter == old(self).position_counter,
            !old(self).accuracy@.contains_key(strategy_id as u128) ==> {
                &&& r matches Err(e) && e@ == "Accuracy not found"@
                &&& final(self).accuracy@ == old(self).accuracy@
            },
            old(self).accuracy@.contains_key(strategy_id as u128) ==> {
                &&& r is Ok
                &&& final(self).accuracy@ == old(self).accuracy@.insert(strategy_id as u128,
                        accuracy_after(old(self).accuracy@[strategy_id as u128], position.entry_sentiment, exit_price - position.entry_price))
            },
    {
        let mut accuracy = match self.accuracy.get(strategy_id as u128) {
            Some(a) => *a,
            None => return Err(String::from_str("Accuracy not found")),
        };
        let pnl = exit_price - position.entry_price;
        let predicted_direction = position.entry_sentiment > 0;
        let actual_direction = pnl > 0;
        accuracy.total_signals = accuracy.total_signals + 1;
        if predicted_direction == actual_direction {
            accuracy.accurate_predictions = accuracy.accurate_predictions + 1;
        } else if predicted_direction && !actual_direction {
            accuracy.false_positives = accuracy.false_positives + 1;
        } else {
            accuracy.false_negatives = accuracy.false_negatives + 1;
        }
        assert(accuracy.accurate_predictions * 10_000 / accuracy.total_signals as int <= 10_000) by (nonlinear_arith)
            requires accuracy.accurate_predictions <= accuracy.total_signals, accuracy.total_signals > 0;
        let correlation = if accuracy.total_signals > 0 {
            ((accuracy.accurate_predictions * SCALE_FACTOR as u32) / accuracy.total_signals) as i32
        } else {
            0
        };
        accuracy.avg_sentiment_price_corr = correlation;
        self.accuracy.insert(strategy_id as u128, accuracy);
        Ok(())
    }

    pub fn get_sentiment_accuracy(&self, strategy_id: u64) -> (r: Result<SentimentAccuracy, String>)
        ensures
            self.accuracy@.contains_key(strategy_id as u128) ==> r == Ok::<SentimentAccuracy, String>(self.accuracy@[strategy_id as u128]),
            !self.accuracy@.contains_key(strategy_id as u128) ==> (r matches Err(e) && e@ == "Accuracy not found"@),
    {
        match self.accuracy.get(strategy_id as u128) {
            Some(a) => Ok(*a),
            None => Err(String::from_str("Accuracy not found")),
        }
    }

    /// The last decayed reading remembered for a strategy.
    pub fn get_last_sentiment(&self, strategy_id: u64) -> (r: Option<&SentimentScore>)
        ensures
            match r {
                Some(sc) => self.last_sentiment@.contains_key(strategy_id as u128) && *sc == self.last_sentiment@[strategy_id as u128],
                None => !self.last_sentiment@.contains_key(strategy_id as u128),
            },
    {
        self.last_sentiment.get(strategy_id as u128)
    }
}


/// Price at which open sentiment positions are marked.
pub open spec fn exit_price_spec() -> int { 105_000 }

/// Close when sentiment flipped past the threshold, faded to near neutral,
/// or the position gained over 10% or lost over 5%.
pub open spec fn should_exit(entry_sentiment: int, current: int, threshold: int, entry_price: int) -> bool {
    let reversed = (entry_sentiment > 0 && current < -threshold) || (entry_sentiment < 0 && current > threshold);
    let weakened = abs(current) < 1000;
    let pnl_pct = tdiv((exit_price_spec() - entry_price) * 100, entry_price);
    reversed || weakened || pnl_pct > 10 || pnl_pct < -5
}

impl SentimentBook {
    pub open spec fn exit_fits(&self, strategy_id: u64, now: u64) -> bool {
        let st = self.strategies@[strategy_id as u128];
        self.strategies@.contains_key(strategy_id as u128) && st.active_position is Some ==> {
            let p = st.active_position->Some_0;
            &&& self.reading_fits(strategy_id, now)
            &&& st.sentiment_threshold != i32::MIN
            &&& p.entry_price > 0
            &&& crate::math::in_i128((exit_price_spec() - p.entry_price) * 100)
            &&& self.accuracy@.contains_key(strategy_id as u128) ==> accuracy_room(self.accuracy@[strategy_id as u128])
        }
    }

    /// Close the strategy's position when its exit rule fires, scoring the
    /// prediction; returns the closed position's id.
    pub fn check_sentiment_exit(&mut self, strategy_id: u64, now: u64) -> (r: Result<Option<u64>, String>)
        requires
            old(self).exit_fits(strategy_id, now),
        ensures
            final(self).last_sentiment@ == old(self).last_sentiment@,
            final(self).strategy_counter == old(self).strategy_counter,
            final(self).position_counter == old(self).position_counter,
            !old(self).strategies@.contains_key(strategy_id as u128) ==> {
                &&& r matches Err(e) && e@ == "Strategy not found"@
                &&& final(self).strategies@ == old(self).strategies@
                &&& final(self).accuracy@ == old(self).accuracy@
            },
            ({
                let st = old(self).strategies@[strategy_id as u128];
                old(self).strategies@.contains_key(strategy_id as u128) && st.active_position is None ==> {
                    &&& r matches Ok(None)
                    &&& final(self).strategies@ == old(self).strategies@
                    &&& final(self).accuracy@ == old(self).accuracy@
                }
            }),
            ({
                let st = old(self).strategies@[strategy_id as u128];
                let p = st.active_position->Some_0;
                old(self).strategies@.contains_key(strategy_id as u128) && st.active_position is Some ==>
                    exists|sc: SentimentScore, cur: SentimentScore| #[trigger] old(self).aggregated(strategy_id, now, sc)
                        && #[trigger] decayed(sc, cur, st.sentiment_decay_hours, now)
                        && if !should_exit(p.entry_sentiment as int, cur.overall_score as int, st.sentiment_threshold as int, p.entry_price as int) {
                            &&& r matches Ok(None)
                            &&& final(self).strategies@ == old(self).strategies@
                            &&& final(self).accuracy@ == old(self).accuracy@
                        } else if !old(self).accuracy@.contains_key(strategy_id as u128) {
                            &&& r matches Err(e) && e@ == "Accuracy not found"@
                            &&& final(self).strategies@ == old(self).strategies@
                            &&& final(self).accuracy@ == old(self).accuracy@
                        } else {
                            &&& r == Ok::<Option<u64>, String>(Some(p.position_id))
                            &&& final(self).strategies@ == old(self).strategies@.insert(strategy_id as u128,
                                    SentimentStrategy { active_position: None, ..st })
                            &&& final(self).accuracy@ == old(self).accuracy@.insert(strategy_id as u128,
                                    accuracy_after(old(self).accuracy@[strategy_id as u128], p.entry_sentiment,
                                        exit_price_spec() - p.entry_price))
                        }
            }),
    {
        let (position, threshold, decay_hours) = match self.strategies.get(strategy_id as u128) {
            Some(s) => match s.active_position {
                Some(p) => (p, s.sentiment_threshold, s.sentiment_decay_hours),
                None => return Ok(None),
            },
            None => return Err(String::from_str("Strategy not found")),
        };
        let mut current = match self.aggregate_sentiment(strategy_id, now) {
            Ok(sc) => sc,
            Err(e) => return Err(e),
        };
        let ghost agg_sc = current;
        assert(self.aggregated(strategy_id, now, agg_sc));
        let _ = apply_sentiment_decay(&mut current, decay_hours, now);
        assert(decayed(agg_sc, current, decay_hours, now));
        let score = current.overall_score;
        assert(score != i32::MIN) by {
            lemma_overall_not_min(self.strategies@[strategy_id as u128].sentiment_sources@);
            lemma_decayed_bounds(agg_sc, current, decay_hours, now);
        }
        let sentiment_reversed = (position.entry_sentiment > 0 && score < -threshold)
            || (position.entry_sentiment < 0 && score > threshold);
        let magnitude = if score < 0 { -score } else { score };
        let sentiment_weakened = magnitude < 1000;
        let current_price: i128 = 105_000;
        let pnl_pct = ((current_price - position.entry_price) * 100) / position.entry_price;
        let profit_target_hit = pnl_pct > 10;
        let stop_loss_hit = pnl_pct < -5;
        proof {
            let num = (current_price - position.entry_price) * 100;
            if num >= 0 {
                assert(pnl_pct == tdiv(num, position.entry_price as int));
            } else {
                assert(pnl_pct == tdiv(num, position.entry_price as int));
            }
        }
        assert(sentiment_weakened == (abs(score as int) < 1000));
        assert(sentiment_reversed == ((position.entry_sentiment > 0 && score < -threshold) || (position.entry_sentiment < 0 && score > threshold)));
        assert(sentiment_reversed || sentiment_weakened || profit_target_hit || stop_loss_hit
            <==> should_exit(position.entry_sentiment as int, score as int, threshold as int, position.entry_price as int));
        if sentiment_reversed || sentiment_weakened || profit_target_hit || stop_loss_hit {
            match self.track_sentiment_accuracy(strategy_id, &position, current_price) {
                Ok(()) => {},
                Err(e) => return Err(e),
            }
            let mut strategy = match self.strategies.remove(strategy_id as u128) {
                Some(s) => s,
                None => return Err(String::from_str("Strategy not found")),
            };
            let position_id = position.position_id;
            strategy.active_position = None;
            self.strategies.insert(strategy_id as u128, strategy);
            proof {
                assert(self.strategies@ =~= old(self).strategies@.insert(strategy_id as u128, self.strategies@[strategy_id as u128]));
            }
            return Ok(Some(position_id));
        }
        Ok(None)
    }
}

}
