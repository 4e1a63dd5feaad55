use auto_trade::iceberg::AssetPair;
use auto_trade::strategies::sentiment::{
    analyze_rationale_sentiment, apply_sentiment_decay, calculate_sentiment_confidence, clamp, sqrt, MetricType,
    SentimentBook, SentimentPosition, SentimentSignal, SentimentSource, TradeDirection, SCALE_FACTOR,
};

const NOW: u64 = 1000;

fn create_test_asset_pair() -> AssetPair {
    AssetPair { base: "XLM".to_string(), quote: "USDC".to_string() }
}

fn create_test_sources() -> Vec<SentimentSource> {
    vec![
        SentimentSource::Twitter("stellar".to_string()),
        SentimentSource::OnChainMetrics(MetricType::ActiveAddresses),
        SentimentSource::SignalRationale,
    ]
}

fn new_strategy(book: &mut SentimentBook, threshold: i32, tech: bool) -> u64 {
    book.create_sentiment_strategy(7, create_test_asset_pair(), create_test_sources(), threshold, tech, 2000, 24, NOW)
        .unwrap()
}

#[test]
fn test_create_sentiment_strategy() {
    let mut book = SentimentBook::new();
    let result = book.create_sentiment_strategy(7, create_test_asset_pair(), create_test_sources(), 5000, true, 2000, 24, NOW);
    assert!(result.is_ok());
    let strategy_id = result.unwrap();
    assert_eq!(strategy_id, 1);
    let strategy = book.strategies.get(strategy_id as u128).unwrap();
    assert_eq!(strategy.user, 7);
    assert_eq!(strategy.sentiment_threshold, 5000);
    assert_eq!(strategy.position_size_pct, 2000);
}

#[test]
fn test_create_strategy_invalid_threshold() {
    let mut book = SentimentBook::new();
    let result = book.create_sentiment_strategy(7, create_test_asset_pair(), create_test_sources(), 500, true, 2000, 24, NOW);
    assert!(result.is_err());
    let result = book.create_sentiment_strategy(7, create_test_asset_pair(), create_test_sources(), 9500, true, 2000, 24, NOW);
    assert!(result.is_err());
}

#[test]
fn test_aggregate_sentiment() {
    let mut book = SentimentBook::new();
    let strategy_id = new_strategy(&mut book, 5000, false);
    let sentiment = book.aggregate_sentiment(strategy_id, NOW).unwrap();
    assert!(sentiment.overall_score >= -SCALE_FACTOR);
    assert!(sentiment.overall_score <= SCALE_FACTOR);
    assert!(sentiment.confidence > 0);
    assert!(sentiment.confidence <= 10000);
    assert!(sentiment.source_scores.len() > 0);
}

#[test]
fn test_sentiment_decay() {
    let mut book = SentimentBook::new();
    let strategy_id = new_strategy(&mut book, 5000, false);
    let mut sentiment = book.aggregate_sentiment(strategy_id, NOW).unwrap();
    let initial_score = sentiment.overall_score;
    apply_sentiment_decay(&mut sentiment, 24, 1000 + 12 * 3600).unwrap();
    assert!(sentiment.overall_score.abs() < initial_score.abs());
    assert_eq!(sentiment.decay_factor, 5000);
}

#[test]
fn test_check_sentiment_signal_bullish() {
    let mut book = SentimentBook::new();
    let strategy_id = new_strategy(&mut book, 3000, false);
    let signal = book.check_sentiment_signal(strategy_id, NOW).unwrap();
    if let Some(sig) = signal {
        assert!(sig.sentiment_score.abs() >= 3000);
        assert!(sig.confidence > 0);
    }
}

fn buy_signal() -> SentimentSignal {
    SentimentSignal {
        direction: TradeDirection::Buy,
        sentiment_score: 7000,
        confidence: 8000,
        source_breakdown: vec![("test".to_string(), 7000)],
    }
}

#[test]
fn test_execute_sentiment_trade() {
    let mut book = SentimentBook::new();
    let strategy_id = new_strategy(&mut book, 3000, false);
    let result = book.execute_sentiment_trade(strategy_id, buy_signal(), NOW);
    assert!(result.is_ok());
    let position_id = result.unwrap();
    assert_eq!(position_id, 1);
    let strategy = book.strategies.get(strategy_id as u128).unwrap();
    assert!(strategy.active_position.is_some());
    let position = strategy.active_position.unwrap();
    assert_eq!(position.entry_sentiment, 7000);
}

#[test]
fn test_check_sentiment_exit() {
    let mut book = SentimentBook::new();
    let strategy_id = new_strategy(&mut book, 3000, false);
    book.execute_sentiment_trade(strategy_id, buy_signal(), NOW).unwrap();
    let exit_result = book.check_sentiment_exit(strategy_id, NOW);
    assert!(exit_result.is_ok());
}

#[test]
fn test_sentiment_accuracy_tracking() {
    let mut book = SentimentBook::new();
    let strategy_id = new_strategy(&mut book, 3000, false);
    let position = SentimentPosition { position_id: 1, entry_sentiment: 7000, entry_price: 100_000, amount: 10_000, entry_time: 1000 };
    book.track_sentiment_accuracy(strategy_id, &position, 110_000).unwrap();
    let accuracy = book.get_sentiment_accuracy(strategy_id).unwrap();
    assert_eq!(accuracy.total_signals, 1);
    assert_eq!(accuracy.accurate_predictions, 1);
    assert_eq!(accuracy.false_positives, 0);
}

#[test]
fn test_analyze_rationale_sentiment() {
    let sentiment = analyze_rationale_sentiment(&"Very bullish breakout with strong momentum".to_string()).unwrap();
    assert!(sentiment > 0);
    let sentiment = analyze_rationale_sentiment(&"Bearish trend with weak support and potential crash".to_string()).unwrap();
    assert!(sentiment < 0);
    let sentiment = analyze_rationale_sentiment(&"Market analysis shows mixed signals".to_string()).unwrap();
    assert_eq!(sentiment, 0);
}

#[test]
fn test_calculate_sentiment_confidence() {
    let scores = vec![("source1".to_string(), 7000), ("source2".to_string(), 7100), ("source3".to_string(), 6900)];
    let confidence = calculate_sentiment_confidence(&scores).unwrap();
    assert!(confidence > 8000);
    let scores2 = vec![("source1".to_string(), 8000), ("source2".to_string(), 2000), ("source3".to_string(), 5000)];
    let confidence2 = calculate_sentiment_confidence(&scores2).unwrap();
    assert!(confidence2 < confidence);
}

#[test]
fn test_clamp() {
    assert_eq!(clamp(5000, 0, 10000), 5000);
    assert_eq!(clamp(-1000, 0, 10000), 0);
    assert_eq!(clamp(15000, 0, 10000), 10000);
}

#[test]
fn test_sqrt() {
    assert_eq!(sqrt(0), 0);
    assert_eq!(sqrt(1), 1);
    assert_eq!(sqrt(4), 2);
    assert_eq!(sqrt(9), 3);
    assert_eq!(sqrt(16), 4);
    assert_eq!(sqrt(100), 10);
}
