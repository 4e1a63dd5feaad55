use auto_trade::strategies::ml_prediction::{
    normalize_feature, predict_with_model, sigmoid, DecisionTree, FeatureConfig, FeatureType, MLModel,
    NormalizationParams, TradeDirection, TreeNode, PRECISION,
};

fn leaf(value: i128) -> TreeNode {
    TreeNode { feature_index: 0, threshold: 0, left_child: None, right_child: None, leaf_value: Some(value) }
}

#[test]
fn logistic_regression_matches_expected_direction() {
    let model = MLModel::LogisticRegression(vec![4000, -2000, 3000], 500);
    let features = vec![6000, 2000, 3000];
    let prediction = predict_with_model(&model, &features).unwrap();
    assert_eq!(prediction.direction, TradeDirection::Buy);
    assert!(prediction.confidence >= 5000);
}

#[test]
fn decision_tree_traversal_predicts_leaf_value() {
    let nodes = vec![
        TreeNode { feature_index: 0, threshold: 5000, left_child: Some(1), right_child: Some(2), leaf_value: None },
        leaf(8000),
        leaf(-7000),
    ];
    let model = MLModel::DecisionTree(nodes);
    let buy_pred = predict_with_model(&model, &vec![4000]).unwrap();
    assert_eq!(buy_pred.direction, TradeDirection::Buy);
    assert_eq!(buy_pred.confidence, 8000);
    let sell_pred = predict_with_model(&model, &vec![9000]).unwrap();
    assert_eq!(sell_pred.direction, TradeDirection::Sell);
    assert_eq!(sell_pred.confidence, 7000);
}

#[test]
fn random_forest_aggregates_weighted_scores() {
    let tree_buy = DecisionTree { nodes: vec![leaf(6000)] };
    let tree_sell = DecisionTree { nodes: vec![leaf(-2000)] };
    let model = MLModel::RandomForest(vec![tree_buy, tree_sell], vec![3, 1]);
    let prediction = predict_with_model(&model, &vec![1000]).unwrap();
    assert_eq!(prediction.raw_score, 4000);
    assert_eq!(prediction.direction, TradeDirection::Buy);
    assert_eq!(prediction.confidence, 4000);
}

#[test]
fn sigmoid_bounds_are_saturated() {
    assert_eq!(sigmoid(10 * PRECISION), 10000);
    assert_eq!(sigmoid(-10 * PRECISION), 0);
}

#[test]
fn normalize_feature_applies_min_max_scaling() {
    let config = FeatureConfig {
        features: vec![FeatureType::Price],
        normalization: vec![("price".to_string(), NormalizationParams { min: 0, max: 200 })],
    };
    let normalized = normalize_feature(50, &FeatureType::Price, &config).unwrap();
    assert_eq!(normalized, 2500);
}

#[test]
fn sigmoid_is_linear_near_zero() {
    assert_eq!(sigmoid(0), 5000);
    assert_eq!(sigmoid(60_000), 10_000);
    assert_eq!(sigmoid(6_000), 5_083);
}

#[test]
fn absent_position_is_all_zero() {
    let p = auto_trade::strategies::ml_prediction::ml_position_absent();
    assert_eq!(p.position_id, 0);
    assert_eq!(p.amount, 0);
    assert_eq!(p.entry_price, 0);
    assert_eq!(p.prediction_confidence, 0);
}
