//! On-chain model inference for trading: logistic regression, decision
//! trees, weighted random forests and small neural networks, all in
//! fixed-point basis points.
use vstd::prelude::*;
use crate::errors::AutoTradeError;
use crate::math::{abs, clamp, in_i128, tdiv};
use crate::iceberg::AssetPair;
use crate::AccountId;
use crate::store::OrdMap;
use vstd::string::StringExecFns;

verus! {

/// The persistent slots of the ML strategies.
#[derive(Clone, Copy, Debug, PartialEq, Eq, Structural)]
pub enum MLDataKey {
    Strategy(u64),
    Performance(u64),
    PositionCounter,
}

pub const PRECISION: i128 = 10_000;
pub const MAX_LOGISTIC_WEIGHTS: usize = 50;
pub const MAX_TREE_NODES: usize = 1_000;
pub const MAX_FOREST_TREES: usize = 100;
pub const MAX_NN_LAYERS: usize = 10;
pub const MAX_LAYER_NEURONS: usize = 100;

#[derive(Clone, Copy, Debug, PartialEq, Eq, Structural)]
pub enum TradeDirection {
    Buy,
    Sell,
}

#[derive(Clone, Copy, Debug, PartialEq, Eq, Structural)]
pub struct TreeNode {
    pub feature_index: u32,
    pub threshold: i128,
    pub left_child: Option<u32>,
    pub right_child: Option<u32>,
    /// Prediction when this node is a leaf.
    pub leaf_value: Option<i128>,
}

pub struct DecisionTree {
    pub nodes: Vec<TreeNode>,
}

#[derive(Clone, Copy, Debug, PartialEq, Eq, Structural)]
pub enum ActivationFunction {
    ReLU,
    Sigmoid,
    Tanh,
    Linear,
}

pub struct Layer {
    /// One weight row per neuron, one weight per input.
    pub weights: Vec<Vec<i128>>,
    pub biases: Vec<i128>,
    pub activation: ActivationFunction,
}

pub enum MLModel {
    LogisticRegression(Vec<i128>, i128),
    DecisionTree(Vec<TreeNode>),
    RandomForest(Vec<DecisionTree>, Vec<u32>),
    NeuralNetwork(Vec<Layer>),
}

#[derive(Clone, Copy, Debug, PartialEq, Eq, Structural)]
pub struct MLPrediction {
    pub direction: TradeDirection,
    pub confidence: u32,
    pub raw_score: i128,
}

// ---------------------------------------------------------------------------
// Activations
// ---------------------------------------------------------------------------

/// Piecewise-linear logistic in basis points, saturating beyond ±6.
pub open spec fn sigmoid_spec(x: int) -> u32 {
    if x >= 60_000 {
        10_000
    } else if x <= -60_000 {
        0
    } else {
        clamp(5_000 + tdiv(x * 833, 60_000), 0, 10_000) as u32
    }
}

pub open spec fn tanh_spec(x: int) -> int {
    tdiv(x * 10_000, 10_000 + abs(x))
}

pub open spec fn tanh_fits(x: int) -> bool {
    &&& x > i128::MIN
    &&& 10_000 + abs(x) <= i128::MAX
    &&& in_i128(x * 10_000)
}

pub fn clamp_i128(value: i128, min: i128, max: i128) -> (r: i128)
    ensures
        r == (if value < min { min } else if value > max { max } else { value }),
{
    if value < min {
        return min;
    }
    if value > max {
        return max;
    }
    value
}

pub fn sigmoid(x: i128) -> (r: u32)
    ensures
        r == sigmoid_spec(x as int),
        r <= 10_000,
{
    if x >= 6 * PRECISION {
        return 10000;
    }
    if x <= -6 * PRECISION {
        return 0;
    }
    let approximation = 5000 + ((x * 833) / (6 * PRECISION));
    clamp_i128(approximation, 0, 10000) as u32
}

/// x / (1 + |x|) in basis points, a bounded stand-in for tanh.
pub fn tanh_approx(x: i128) -> (r: i128)
    requires
        tanh_fits(x as int),
    ensures
        r == tanh_spec(x as int),
{
    let abs_x = if x < 0 { -x } else { x };
    let denominator = PRECISION + abs_x;
    if denominator == 0 {
        return 0;
    }
    (x * PRECISION) / denominator
}

/// Running average after adding `new_value` to `prev_count` values averaging `prev_avg`.
pub fn weighted_avg_u32(prev_avg: u32, prev_count: u32, new_value: u32) -> (r: u32)
    ensures
        r == ((prev_avg * prev_count + new_value) / (prev_count + 1)) as u32,
{
    assert((prev_avg as u128) * (prev_count as u128) <= 0xffff_ffff * 0xffff_ffff) by (nonlinear_arith)
        requires prev_avg <= 0xffff_ffff, prev_count <= 0xffff_ffff;
    let total = (prev_avg as u128 * prev_count as u128) + new_value as u128;
    let denom = prev_count as u128 + 1;
    assert((prev_avg * prev_count + new_value) / (prev_count + 1) <= 0xffff_ffff) by (nonlinear_arith)
        requires prev_avg <= 0xffff_ffff, prev_count <= 0xffff_ffff, new_value <= 0xffff_ffff;
    (total / denom) as u32
}

// ---------------------------------------------------------------------------
// Logistic regression
// ---------------------------------------------------------------------------

/// intercept + Σ feature·weight / 10000 over the first `k` features.
pub open spec fn logit_sum(f: Seq<i128>, w: Seq<i128>, intercept: int, k: int) -> int
    decreases k,
{
    if k <= 0 { intercept } else { logit_sum(f, w, intercept, k - 1) + tdiv(f[k - 1] * w[k - 1], 10_000) }
}

pub open spec fn logistic_fits(f: Seq<i128>, w: Seq<i128>, intercept: int) -> bool {
    forall|k: int| 0 <= k < f.len() ==> in_i128(#[trigger] f[k] * w[k]) && in_i128(logit_sum(f, w, intercept, k + 1))
}

/// Buy above 50% probability, with confidence the probability of the chosen side.
pub open spec fn from_probability(p: u32, logit: i128) -> MLPrediction {
    MLPrediction {
        direction: if p > 5_000 { TradeDirection::Buy } else { TradeDirection::Sell },
        confidence: if p > 5_000 { p } else { (10_000 - p) as u32 },
        raw_score: logit,
    }
}

pub open spec fn logistic_prediction(f: Seq<i128>, w: Seq<i128>, intercept: i128) -> Result<MLPrediction, AutoTradeError> {
    if f.len() != w.len() {
        Err(AutoTradeError::InvalidPriceData)
    } else {
        let logit = logit_sum(f, w, intercept as int, f.len() as int);
        Ok(from_probability(sigmoid_spec(logit), logit as i128))
    }
}

pub fn predict_logistic_regression(features: &Vec<i128>, weights: &Vec<i128>, intercept: i128) -> (r: Result<MLPrediction, AutoTradeError>)
    requires
        features@.len() == weights@.len() ==> logistic_fits(features@, weights@, intercept as int),
    ensures
        r == logistic_prediction(features@, weights@, intercept),
{
    if features.len() != weights.len() {
        return Err(AutoTradeError::InvalidPriceData);
    }
    let mut logit = intercept;
    let mut i: usize = 0;
    while i < features.len()
        invariant
            features@.len() == weights@.len(),
            i <= features@.len(),
            logistic_fits(features@, weights@, intercept as int),
            logit == logit_sum(features@, weights@, intercept as int, i as int),
        decreases features@.len() - i,
    {
        let feature = features[i];
        let weight = weights[i];
        assert(in_i128(features@[i as int] * weights@[i as int]));
        logit = logit + (feature * weight) / PRECISION;
        i = i + 1;
    }
    let probability = sigmoid(logit);
    let direction = if probability > 5000 { TradeDirection::Buy } else { TradeDirection::Sell };
    let confidence = if probability > 5000 { probability } else { 10000 - probability };
    Ok(MLPrediction { direction, confidence, raw_score: logit })
}

// ---------------------------------------------------------------------------
// Decision trees and forests
// ---------------------------------------------------------------------------

/// Prediction of a leaf: its sign gives the direction, its magnitude
/// (capped at 10000) the confidence.
pub open spec fn leaf_prediction(v: i128) -> MLPrediction {
    MLPrediction {
        direction: if v > 0 { TradeDirection::Buy } else { TradeDirection::Sell },
        confidence: clamp(abs(v as int), 0, 10_000) as u32,
        raw_score: v,
    }
}

/// Walk from node `idx` having taken `steps` steps; more than `len + 1`
/// visits means a cycle.
pub open spec fn tree_walk(f: Seq<i128>, nodes: Seq<TreeNode>, idx: int, steps: int) -> Result<MLPrediction, AutoTradeError>
    decreases nodes.len() + 2 - steps,
{
    if steps + 1 > nodes.len() + 1 || idx < 0 || idx >= nodes.len() {
        Err(AutoTradeError::InvalidStatArbConfig)
    } else {
        let node = nodes[idx];
        match node.leaf_value {
            Some(v) => Ok(leaf_prediction(v)),
            None => if node.feature_index >= f.len() {
                Err(AutoTradeError::InvalidPriceData)
            } else {
                let next = if f[node.feature_index as int] <= node.threshold { node.left_child } else { node.right_child };
                match next {
                    None => Err(AutoTradeError::InvalidStatArbConfig),
                    Some(c) => if c >= nodes.len() { Err(AutoTradeError::InvalidStatArbConfig) } else { tree_walk(f, nodes, c as int, steps + 1) },
                }
            },
        }
    }
}

pub open spec fn tree_prediction(f: Seq<i128>, nodes: Seq<TreeNode>) -> Result<MLPrediction, AutoTradeError> {
    if nodes.len() == 0 { Err(AutoTradeError::InvalidPriceData) } else { tree_walk(f, nodes, 0, 0) }
}

/// No leaf holds `i128::MIN`, whose magnitude has no `i128`.
pub open spec fn leaves_fit(nodes: Seq<TreeNode>) -> bool {
    forall|i: int| 0 <= i < nodes.len() ==> (#[trigger] nodes[i]).leaf_value != Some(i128::MIN)
}

pub fn predict_decision_tree(features: &Vec<i128>, nodes: &Vec<TreeNode>) -> (r: Result<MLPrediction, AutoTradeError>)
    requires
        leaves_fit(nodes@),
        nodes@.len() + 1 < u32::MAX,
    ensures
        r == tree_prediction(features@, nodes@),
{
    if nodes.len() == 0 {
        return Err(AutoTradeError::InvalidPriceData);
    }
    let mut current_node_idx: u32 = 0;
    let mut guard_steps: u32 = 0;
    loop
        invariant
            nodes@.len() > 0,
            nodes@.len() + 1 < u32::MAX,
            leaves_fit(nodes@),
            (current_node_idx as int) < nodes@.len(),
            guard_steps <= nodes@.len() + 1,
            tree_prediction(features@, nodes@) == tree_walk(features@, nodes@, current_node_idx as int, guard_steps as int),
        decreases nodes@.len() + 1 - guard_steps,
    {
        guard_steps = guard_steps + 1;
        if guard_steps as usize > nodes.len() + 1 {
            return Err(AutoTradeError::InvalidStatArbConfig);
        }
        let node = nodes[current_node_idx as usize];
        match node.leaf_value {
            Some(leaf_value) => {
                assert(nodes@[current_node_idx as int].leaf_value != Some(i128::MIN));
                let magnitude = if leaf_value < 0 { -leaf_value } else { leaf_value };
                return Ok(MLPrediction {
                    direction: if leaf_value > 0 { TradeDirection::Buy } else { TradeDirection::Sell },
                    confidence: clamp_i128(magnitude, 0, 10000) as u32,
                    raw_score: leaf_value,
                });
            },
            None => {},
        }
        if node.feature_index as usize >= features.len() {
            return Err(AutoTradeError::InvalidPriceData);
        }
        let feature_value = features[node.feature_index as usize];
        let next = if feature_value <= node.threshold { node.left_child } else { node.right_child };
        current_node_idx = match next {
            Some(c) => c,
            None => return Err(AutoTradeError::InvalidStatArbConfig),
        };
        if current_node_idx as usize >= nodes.len() {
            return Err(AutoTradeError::InvalidStatArbConfig);
        }
    }
}

/// Weighted score sum and total weight over the first `k` trees (trees of
/// weight 0 are skipped).
pub open spec fn forest_acc(f: Seq<i128>, trees: Seq<DecisionTree>, weights: Seq<u32>, k: int) -> Result<(int, int), AutoTradeError>
    decreases k,
{
    if k <= 0 {
        Ok((0, 0))
    } else {
        match forest_acc(f, trees, weights, k - 1) {
            Err(e) => Err(e),
            Ok((s, t)) => if weights[k - 1] == 0 {
                Ok((s, t))
            } else {
                match tree_prediction(f, trees[k - 1].nodes@) {
                    Err(e) => Err(e),
                    Ok(p) => Ok((s + p.raw_score * weights[k - 1], t + weights[k - 1])),
                }
            },
        }
    }
}

pub open spec fn forest_fits(f: Seq<i128>, trees: Seq<DecisionTree>, weights: Seq<u32>) -> bool {
    &&& forall|k: int| 0 <= k < trees.len() ==> leaves_fit(#[trigger] trees[k].nodes@) && trees[k].nodes@.len() + 1 < u32::MAX
    &&& forall|k: int| 0 <= k <= trees.len() ==> (#[trigger] forest_acc(f, trees, weights, k) matches Ok((s, t)) ==> in_i128(s) && t <= u32::MAX)
    &&& forall|k: int| 0 <= k < trees.len() ==> (#[trigger] tree_prediction(f, trees[k].nodes@) matches Ok(p) ==> in_i128(p.raw_score * weights[k]))
    &&& forest_acc(f, trees, weights, trees.len() as int) matches Ok((s, t)) ==> s > i128::MIN
}

proof fn lemma_forest_err_sticks(f: Seq<i128>, trees: Seq<DecisionTree>, weights: Seq<u32>, k: int, n: int, e: AutoTradeError)
    requires
        0 <= k <= n,
        forest_acc(f, trees, weights, k) == Err::<(int, int), AutoTradeError>(e),
    ensures
        forest_acc(f, trees, weights, n) == Err::<(int, int), AutoTradeError>(e),
    decreases n - k,
{
    if k < n {
        lemma_forest_err_sticks(f, trees, weights, k + 1, n, e);
    }
}

pub open spec fn forest_prediction(f: Seq<i128>, trees: Seq<DecisionTree>, weights: Seq<u32>) -> Result<MLPrediction, AutoTradeError> {
    if trees.len() == 0 || trees.len() != weights.len() {
        Err(AutoTradeError::InvalidPriceData)
    } else {
        match forest_acc(f, trees, weights, trees.len() as int) {
            Err(e) => Err(e),
            Ok((s, t)) => if t == 0 { Err(AutoTradeError::InvalidPriceData) } else { Ok(leaf_prediction(tdiv(s, t) as i128)) },
        }
    }
}

pub fn predict_random_forest(features: &Vec<i128>, trees: &Vec<DecisionTree>, tree_weights: &Vec<u32>) -> (r: Result<MLPrediction, AutoTradeError>)
    requires
        trees@.len() == tree_weights@.len() ==> forest_fits(features@, trees@, tree_weights@),
    ensures
        r == forest_prediction(features@, trees@, tree_weights@),
{
    if trees.len() == 0 || trees.len() != tree_weights.len() {
        return Err(AutoTradeError::InvalidPriceData);
    }
    let mut weighted_sum: i128 = 0;
    let mut total_weight: u32 = 0;
    let mut i: usize = 0;
    while i < trees.len()
        invariant
            trees@.len() == tree_weights@.len(),
            trees@.len() > 0,
            i <= trees@.len(),
            forest_fits(features@, trees@, tree_weights@),
            forest_acc(features@, trees@, tree_weights@, i as int) == Ok::<(int, int), AutoTradeError>((weighted_sum as int, total_weight as int)),
        decreases trees@.len() - i,
    {
        let weight = tree_weights[i];
        if weight != 0 {
            assert(leaves_fit(trees@[i as int].nodes@) && trees@[i as int].nodes@.len() + 1 < u32::MAX);
            let prediction = match predict_decision_tree(features, &trees[i].nodes) {
                Ok(p) => p,
                Err(e) => {
                    proof { lemma_forest_err_sticks(features@, trees@, tree_weights@, i + 1, trees@.len() as int, e); }
                    return Err(e);
                },
            };
            assert(tree_prediction(features@, trees@[i as int].nodes@) matches Ok(p) ==> in_i128(p.raw_score * tree_weights@[i as int]));
            assert(forest_acc(features@, trees@, tree_weights@, i + 1) matches Ok((s, t)) ==> in_i128(s) && t <= u32::MAX);
            weighted_sum = weighted_sum + prediction.raw_score * weight as i128;
            total_weight = total_weight + weight;
        }
        i = i + 1;
    }
    if total_weight == 0 {
        return Err(AutoTradeError::InvalidPriceData);
    }
    let avg_score = weighted_sum / total_weight as i128;
    assert(avg_score != i128::MIN) by {
        assert(weighted_sum > i128::MIN);
    }
    let magnitude = if avg_score < 0 { -avg_score } else { avg_score };
    Ok(MLPrediction {
        direction: if avg_score > 0 { TradeDirection::Buy } else { TradeDirection::Sell },
        confidence: clamp_i128(magnitude, 0, 10000) as u32,
        raw_score: avg_score,
    })
}


// ---------------------------------------------------------------------------
// Neural networks
// ---------------------------------------------------------------------------

/// bias + Σ input·weight / 10000 over the first `k` inputs.
pub open spec fn neuron_sum(inputs: Seq<i128>, w: Seq<i128>, bias: int, k: int) -> int
    decreases k,
{
    if k <= 0 { bias } else { neuron_sum(inputs, w, bias, k - 1) + tdiv(inputs[k - 1] * w[k - 1], 10_000) }
}

pub open spec fn activate(a: ActivationFunction, x: int) -> int {
    match a {
        ActivationFunction::ReLU => if x > 0 { x } else { 0 },
        ActivationFunction::Sigmoid => sigmoid_spec(x) as int,
        ActivationFunction::Tanh => tanh_spec(x),
        ActivationFunction::Linear => x,
    }
}

/// Every neuron has a bias and one weight per input.
pub open spec fn layer_ok(inputs: Seq<i128>, layer: &Layer) -> bool {
    &&& layer.weights@.len() == layer.biases@.len()
    &&& forall|i: int| 0 <= i < layer.weights@.len() ==> (#[trigger] layer.weights@[i])@.len() == inputs.len()
}

pub open spec fn neuron_out(inputs: Seq<i128>, layer: &Layer, i: int) -> i128 {
    activate(layer.activation, neuron_sum(inputs, layer.weights@[i]@, layer.biases@[i] as int, inputs.len() as int)) as i128
}

/// The layer's outputs on `inputs`, or `None` when its shape does not fit them.
pub open spec fn layer_forward(inputs: Seq<i128>, layer: &Layer) -> Option<Seq<i128>> {
    if layer_ok(inputs, layer) {
        Some(Seq::new(layer.weights@.len() as nat, |i: int| neuron_out(inputs, layer, i)))
    } else {
        None
    }
}

pub open spec fn neuron_fits(inputs: Seq<i128>, w: Seq<i128>, bias: int, act: ActivationFunction) -> bool {
    w.len() == inputs.len() ==> {
        &&& forall|k: int| 0 <= k < inputs.len() ==> in_i128(#[trigger] inputs[k] * w[k]) && in_i128(neuron_sum(inputs, w, bias, k + 1))
        &&& act == ActivationFunction::Tanh ==> tanh_fits(neuron_sum(inputs, w, bias, inputs.len() as int))
    }
}

pub open spec fn layer_fits(inputs: Seq<i128>, layer: &Layer) -> bool {
    forall|i: int| 0 <= i < layer.weights@.len() && i < layer.biases@.len() ==>
        #[trigger] neuron_fits(inputs, layer.weights@[i]@, layer.biases@[i] as int, layer.activation)
}

pub open spec fn nn_forward(features: Seq<i128>, layers: Seq<Layer>, k: int) -> Option<Seq<i128>>
    decreases k,
{
    if k <= 0 {
        Some(features)
    } else {
        match nn_forward(features, layers, k - 1) {
            None => None,
            Some(a) => layer_forward(a, &layers[k - 1]),
        }
    }
}

pub open spec fn nn_fits(features: Seq<i128>, layers: Seq<Layer>) -> bool {
    &&& forall|k: int| 0 <= k < layers.len() ==> (#[trigger] nn_forward(features, layers, k) matches Some(a) ==> layer_fits(a, &layers[k]))
    &&& (nn_forward(features, layers, layers.len() as int) matches Some(a) ==> (a.len() > 0 ==> a[0] != i128::MIN))
}

pub open spec fn nn_prediction(features: Seq<i128>, layers: Seq<Layer>) -> Result<MLPrediction, AutoTradeError> {
    if layers.len() == 0 {
        Err(AutoTradeError::InvalidPriceData)
    } else {
        match nn_forward(features, layers, layers.len() as int) {
            None => Err(AutoTradeError::InvalidPriceData),
            Some(a) => if a.len() == 0 { Err(AutoTradeError::InvalidPriceData) } else { Ok(leaf_prediction(a[0])) },
        }
    }
}

/// Outputs of one layer on `inputs`.
pub fn forward_layer(inputs: &Vec<i128>, layer: &Layer) -> (r: Result<Vec<i128>, AutoTradeError>)
    requires
        layer_fits(inputs@, layer),
    ensures
        match r {
            Ok(v) => layer_forward(inputs@, layer) == Some(v@),
            Err(e) => layer_forward(inputs@, layer) == None::<Seq<i128>> && e == AutoTradeError::InvalidPriceData,
        },
{
    if layer.weights.len() != layer.biases.len() {
        return Err(AutoTradeError::InvalidPriceData);
    }
    let mut outputs: Vec<i128> = Vec::new();
    let mut i: usize = 0;
    while i < layer.weights.len()
        invariant
            layer.weights@.len() == layer.biases@.len(),
            i <= layer.weights@.len(),
            layer_fits(inputs@, layer),
            forall|k: int| 0 <= k < i ==> (#[trigger] layer.weights@[k])@.len() == inputs@.len(),
            outputs@.len() == i,
            forall|k: int| 0 <= k < i ==> outputs@[k] == neuron_out(inputs@, layer, k),
        decreases layer.weights@.len() - i,
    {
        let neuron_weights = &layer.weights[i];
        let bias = layer.biases[i];
        if neuron_weights.len() != inputs.len() {
            return Err(AutoTradeError::InvalidPriceData);
        }
        assert(neuron_fits(inputs@, layer.weights@[i as int]@, layer.biases@[i as int] as int, layer.activation));
        let mut sum = bias;
        let mut j: usize = 0;
        while j < inputs.len()
            invariant
                neuron_weights@.len() == inputs@.len(),
                j <= inputs@.len(),
                neuron_fits(inputs@, neuron_weights@, bias as int, layer.activation),
                sum == neuron_sum(inputs@, neuron_weights@, bias as int, j as int),
            decreases inputs@.len() - j,
        {
            let input = inputs[j];
            let weight = neuron_weights[j];
            assert(in_i128(inputs@[j as int] * neuron_weights@[j as int]));
            sum = sum + (input * weight) / PRECISION;
            j = j + 1;
        }
        let activated: i128 = match layer.activation {
            ActivationFunction::ReLU => if sum > 0 { sum } else { 0 },
            ActivationFunction::Sigmoid => sigmoid(sum) as i128,
            ActivationFunction::Tanh => tanh_approx(sum),
            ActivationFunction::Linear => sum,
        };
        outputs.push(activated);
        i = i + 1;
    }
    proof {
        assert(outputs@ =~= Seq::new(layer.weights@.len() as nat, |k: int| neuron_out(inputs@, layer, k)));
    }
    Ok(outputs)
}

fn copy_values(v: &Vec<i128>) -> (r: Vec<i128>)
    ensures
        r@ == v@,
{
    let mut out: Vec<i128> = Vec::new();
    let mut i: usize = 0;
    while i < v.len()
        invariant
            i <= v@.len(),
            out@ == v@.take(i as int),
        decreases v@.len() - i,
    {
        out.push(v[i]);
        i = i + 1;
        proof { assert(out@ =~= v@.take(i as int)); }
    }
    proof { assert(v@.take(v@.len() as int) =~= v@); }
    out
}

proof fn lemma_nn_none_sticks(features: Seq<i128>, layers: Seq<Layer>, k: int, n: int)
    requires
        0 <= k <= n,
        nn_forward(features, layers, k) == None::<Seq<i128>>,
    ensures
        nn_forward(features, layers, n) == None::<Seq<i128>>,
    decreases n - k,
{
    if k < n {
        lemma_nn_none_sticks(features, layers, k + 1, n);
    }
}

pub fn predict_neural_network(features: &Vec<i128>, layers: &Vec<Layer>) -> (r: Result<MLPrediction, AutoTradeError>)
    requires
        nn_fits(features@, layers@),
    ensures
        r == nn_prediction(features@, layers@),
{
    if layers.len() == 0 {
        return Err(AutoTradeError::InvalidPriceData);
    }
    let mut activations = copy_values(features);
    let mut i: usize = 0;
    while i < layers.len()
        invariant
            i <= layers@.len(),
            layers@.len() > 0,
            nn_fits(features@, layers@),
            nn_forward(features@, layers@, i as int) == Some(activations@),
        decreases layers@.len() - i,
    {
        assert(nn_forward(features@, layers@, i as int) matches Some(a) ==> layer_fits(a, &layers@[i as int]));
        activations = match forward_layer(&activations, &layers[i]) {
            Ok(a) => a,
            Err(e) => {
                proof { lemma_nn_none_sticks(features@, layers@, i + 1, layers@.len() as int); }
                return Err(e);
            },
        };
        i = i + 1;
    }
    if activations.len() == 0 {
        return Err(AutoTradeError::InvalidPriceData);
    }
    let output = activations[0];
    let magnitude = if output < 0 { -output } else { output };
    Ok(MLPrediction {
        direction: if output > 0 { TradeDirection::Buy } else { TradeDirection::Sell },
        confidence: clamp_i128(magnitude, 0, 10000) as u32,
        raw_score: output,
    })
}

// ---------------------------------------------------------------------------
// Dispatch and validation
// ---------------------------------------------------------------------------

pub open spec fn model_prediction(model: &MLModel, f: Seq<i128>) -> Result<MLPrediction, AutoTradeError> {
    match model {
        MLModel::LogisticRegression(w, b) => logistic_prediction(f, w@, *b),
        MLModel::DecisionTree(nodes) => tree_prediction(f, nodes@),
        MLModel::RandomForest(trees, weights) => forest_prediction(f, trees@, weights@),
        MLModel::NeuralNetwork(layers) => nn_prediction(f, layers@),
    }
}

/// The model's arithmetic on `f` stays within range.
pub open spec fn model_fits(model: &MLModel, f: Seq<i128>) -> bool {
    match model {
        MLModel::LogisticRegression(w, b) => f.len() == w@.len() ==> logistic_fits(f, w@, *b as int),
        MLModel::DecisionTree(nodes) => leaves_fit(nodes@) && nodes@.len() + 1 < u32::MAX,
        MLModel::RandomForest(trees, weights) => trees@.len() == weights@.len() ==> forest_fits(f, trees@, weights@),
        MLModel::NeuralNetwork(layers) => nn_fits(f, layers@),
    }
}

/// Predict with whichever kind of model is given.
pub fn predict_with_model(model: &MLModel, features: &Vec<i128>) -> (r: Result<MLPrediction, AutoTradeError>)
    requires
        model_fits(model, features@),
    ensures
        r == model_prediction(model, features@),
{
    match model {
        MLModel::LogisticRegression(weights, intercept) => predict_logistic_regression(features, weights, *intercept),
        MLModel::DecisionTree(nodes) => predict_decision_tree(features, nodes),
        MLModel::RandomForest(trees, tree_weights) => predict_random_forest(features, trees, tree_weights),
        MLModel::NeuralNetwork(layers) => predict_neural_network(features, layers),
    }
}

/// An inner node has both children, within the tree.
pub open spec fn node_ok(node: TreeNode, n: int) -> bool {
    node.leaf_value is Some || (node.left_child matches Some(l) && node.right_child matches Some(r) && l < n && r < n)
}

pub open spec fn tree_valid(nodes: Seq<TreeNode>) -> Result<(), AutoTradeError> {
    if nodes.len() == 0 {
        Err(AutoTradeError::InvalidPriceData)
    } else if forall|i: int| 0 <= i < nodes.len() ==> #[trigger] node_ok(nodes[i], nodes.len() as int) {
        Ok(())
    } else {
        Err(AutoTradeError::InvalidStatArbConfig)
    }
}

pub fn validate_tree_structure(nodes: &Vec<TreeNode>) -> (r: Result<(), AutoTradeError>)
    ensures
        r == tree_valid(nodes@),
{
    if nodes.len() == 0 {
        return Err(AutoTradeError::InvalidPriceData);
    }
    let n = nodes.len();
    let mut i: usize = 0;
    while i < n
        invariant
            n == nodes@.len(),
            i <= n,
            forall|k: int| 0 <= k < i ==> #[trigger] node_ok(nodes@[k], n as int),
        decreases n - i,
    {
        let node = nodes[i];
        match node.leaf_value {
            Some(_) => {},
            None => {
                let left = match node.left_child {
                    Some(l) => l,
                    None => {
                        assert(!node_ok(nodes@[i as int], n as int));
                        return Err(AutoTradeError::InvalidStatArbConfig);
                    },
                };
                let right = match node.right_child {
                    Some(r) => r,
                    None => {
                        assert(!node_ok(nodes@[i as int], n as int));
                        return Err(AutoTradeError::InvalidStatArbConfig);
                    },
                };
                if left as usize >= n || right as usize >= n {
                    assert(!node_ok(nodes@[i as int], n as int));
                    return Err(AutoTradeError::InvalidStatArbConfig);
                }
            },
        }
        i = i + 1;
    }
    Ok(())
}

pub open spec fn layers_valid(layers: Seq<Layer>) -> bool {
    forall|i: int| 0 <= i < layers.len() ==> {
        &&& (#[trigger] layers[i]).weights@.len() != 0
        &&& layers[i].weights@.len() <= MAX_LAYER_NEURONS
        &&& layers[i].weights@.len() == layers[i].biases@.len()
    }
}

/// Index of the first tree that fails validation, if any.
pub open spec fn first_invalid_tree(trees: Seq<DecisionTree>) -> Option<int> {
    if exists|i: int| 0 <= i < trees.len() && #[trigger] tree_valid(trees[i].nodes@) is Err {
        Some(choose|i: int| 0 <= i < trees.len() && #[trigger] tree_valid(trees[i].nodes@) is Err
            && forall|j: int| 0 <= j < i ==> #[trigger] tree_valid(trees[j].nodes@) is Ok)
    } else {
        None
    }
}

pub open spec fn model_valid(model: &MLModel) -> Result<(), AutoTradeError> {
    match model {
        MLModel::LogisticRegression(w, b) =>
            if w@.len() == 0 || w@.len() > MAX_LOGISTIC_WEIGHTS || abs(*b as int) >= i128::MAX / 2 { Err(AutoTradeError::InvalidPriceData) } else { Ok(()) },
        MLModel::DecisionTree(nodes) =>
            if nodes@.len() == 0 || nodes@.len() > MAX_TREE_NODES { Err(AutoTradeError::InvalidPriceData) } else { tree_valid(nodes@) },
        MLModel::RandomForest(trees, weights) =>
            if trees@.len() == 0 || trees@.len() != weights@.len() || trees@.len() > MAX_FOREST_TREES {
                Err(AutoTradeError::InvalidPriceData)
            } else {
                match first_invalid_tree(trees@) {
                    Some(i) => tree_valid(trees@[i].nodes@),
                    None => Ok(()),
                }
            },
        MLModel::NeuralNetwork(layers) =>
            if layers@.len() == 0 || layers@.len() > MAX_NN_LAYERS || !layers_valid(layers@) { Err(AutoTradeError::InvalidPriceData) } else { Ok(()) },
    }
}

/// Check a model's shape before it is installed.
pub fn validate_model_structure(model: &MLModel) -> (r: Result<(), AutoTradeError>)
    requires
        model matches MLModel::LogisticRegression(_, b) ==> b != i128::MIN,
    ensures
        r == model_valid(model),
{
    match model {
        MLModel::LogisticRegression(weights, intercept) => {
            if weights.len() == 0 || weights.len() > MAX_LOGISTIC_WEIGHTS {
                return Err(AutoTradeError::InvalidPriceData);
            }
            let magnitude = if *intercept < 0 { -*intercept } else { *intercept };
            if magnitude >= i128::MAX / 2 {
                return Err(AutoTradeError::InvalidPriceData);
            }
        },
        MLModel::DecisionTree(nodes) => {
            if nodes.len() == 0 || nodes.len() > MAX_TREE_NODES {
                return Err(AutoTradeError::InvalidPriceData);
            }
            validate_tree_structure(nodes)?;
        },
        MLModel::RandomForest(trees, tree_weights) => {
            if trees.len() == 0 || trees.len() != tree_weights.len() || trees.len() > MAX_FOREST_TREES {
                return Err(AutoTradeError::InvalidPriceData);
            }
            let mut i: usize = 0;
            while i < trees.len()
                invariant
                    i <= trees@.len(),
                    trees@.len() != 0,
                    trees@.len() == tree_weights@.len(),
                    trees@.len() <= MAX_FOREST_TREES,
                    *model == MLModel::RandomForest(*trees, *tree_weights),
                    forall|j: int| 0 <= j < i ==> #[trigger] tree_valid(trees@[j].nodes@) is Ok,
                decreases trees@.len() - i,
            {
                match validate_tree_structure(&trees[i].nodes) {
                    Ok(()) => {},
                    Err(e) => {
                        proof {
                            let k = first_invalid_tree(trees@);
                            assert(tree_valid(trees@[i as int].nodes@) is Err);
                            let c = choose|c: int| 0 <= c < trees@.len() && #[trigger] tree_valid(trees@[c].nodes@) is Err
                                && forall|j: int| 0 <= j < c ==> #[trigger] tree_valid(trees@[j].nodes@) is Ok;
                            assert(0 <= i < trees@.len() && tree_valid(trees@[i as int].nodes@) is Err
                                && forall|j: int| 0 <= j < i ==> #[trigger] tree_valid(trees@[j].nodes@) is Ok);
                            if c < i { assert(tree_valid(trees@[c].nodes@) is Ok); }
                            if c > i { assert(tree_valid(trees@[i as int].nodes@) is Ok); }
                        }
                        return Err(e);
                    },
                }
                i = i + 1;
            }
        },
        MLModel::NeuralNetwork(layers) => {
            if layers.len() == 0 || layers.len() > MAX_NN_LAYERS {
                return Err(AutoTradeError::InvalidPriceData);
            }
            let mut i: usize = 0;
            while i < layers.len()
                invariant
                    i <= layers@.len(),
                    layers@.len() != 0,
                    layers@.len() <= MAX_NN_LAYERS,
                    *model == MLModel::NeuralNetwork(*layers),
                    forall|j: int| 0 <= j < i ==> {
                        &&& (#[trigger] layers@[j]).weights@.len() != 0
                        &&& layers@[j].weights@.len() <= MAX_LAYER_NEURONS
                        &&& layers@[j].weights@.len() == layers@[j].biases@.len()
                    },
                decreases layers@.len() - i,
            {
                let layer = &layers[i];
                if layer.weights.len() == 0 || layer.weights.len() > MAX_LAYER_NEURONS {
                    assert(!layers_valid(layers@));
                    return Err(AutoTradeError::InvalidPriceData);
                }
                if layer.weights.len() != layer.biases.len() {
                    assert(!layers_valid(layers@));
                    return Err(AutoTradeError::InvalidPriceData);
                }
                i = i + 1;
            }
        },
    }
    Ok(())
}


// ---------------------------------------------------------------------------
// Features
// ---------------------------------------------------------------------------

pub enum FeatureType {
    Price,
    Volume,
    RSI,
    MACD,
    BollingerBands,
    PriceChange(u32),
    VolumeChange(u32),
    /// A named feature and the formula that computes it.
    Custom(String, String),
}

#[derive(Clone, Copy, Debug, PartialEq, Eq, Structural)]
pub struct NormalizationParams {
    pub min: i128,
    pub max: i128,
}

/// Which features feed the model, and the min/max scaling of each, by name.
pub struct FeatureConfig {
    pub features: Vec<FeatureType>,
    pub normalization: Vec<(String, NormalizationParams)>,
}

/// The name under which a feature's normalization is looked up.
pub open spec fn feature_name(ft: &FeatureType) -> Seq<char> {
    match ft {
        FeatureType::Price => "price"@,
        FeatureType::Volume => "volume"@,
        FeatureType::RSI => "rsi"@,
        FeatureType::MACD => "macd"@,
        FeatureType::BollingerBands => "bollinger_bands"@,
        FeatureType::PriceChange(_) => "price_change"@,
        FeatureType::VolumeChange(_) => "volume_change"@,
        FeatureType::Custom(name, _) => name@,
    }
}

pub fn feature_type_name(feature_type: &FeatureType) -> (r: String)
    ensures
        r@ == feature_name(feature_type),
{
    match feature_type {
        FeatureType::Price => String::from_str("price"),
        FeatureType::Volume => String::from_str("volume"),
        FeatureType::RSI => String::from_str("rsi"),
        FeatureType::MACD => String::from_str("macd"),
        FeatureType::BollingerBands => String::from_str("bollinger_bands"),
        FeatureType::PriceChange(_) => String::from_str("price_change"),
        FeatureType::VolumeChange(_) => String::from_str("volume_change"),
        FeatureType::Custom(name, _) => name.clone(),
    }
}

/// The scaling registered under `name`: the first entry with that name.
pub open spec fn norm_lookup(entries: Seq<(String, NormalizationParams)>, name: Seq<char>) -> Option<NormalizationParams>
    decreases entries.len(),
{
    if entries.len() == 0 {
        None
    } else if entries[0].0@ == name {
        Some(entries[0].1)
    } else {
        norm_lookup(entries.drop_first(), name)
    }
}

pub open spec fn normalize_fits(value: int, params: Option<NormalizationParams>) -> bool {
    match params {
        None => true,
        Some(p) => in_i128(p.max - p.min) && (p.max - p.min > 0 ==> in_i128((value - p.min) * 10_000)),
    }
}

/// Min/max scaling into [0, 10000]; the raw value where no scaling is registered.
pub open spec fn normalized_value(value: int, params: Option<NormalizationParams>) -> Result<i128, AutoTradeError> {
    match params {
        None => Ok(value as i128),
        Some(p) => if p.max - p.min <= 0 {
            Err(AutoTradeError::InvalidPriceData)
        } else {
            Ok(clamp(tdiv((value - p.min) * 10_000, p.max - p.min), 0, 10_000) as i128)
        },
    }
}

fn find_normalization(entries: &Vec<(String, NormalizationParams)>, name: &String) -> (r: Option<NormalizationParams>)
    ensures
        r == norm_lookup(entries@, name@),
{
    let mut i: usize = 0;
    assert(entries@.skip(0) =~= entries@);
    while i < entries.len()
        invariant
            i <= entries@.len(),
            norm_lookup(entries@, name@) == norm_lookup(entries@.skip(i as int), name@),
        decreases entries@.len() - i,
    {
        assert(entries@.skip(i as int)[0] == entries@[i as int]);
        if entries[i].0 == *name {
            return Some(entries[i].1);
        }
        assert(entries@.skip(i as int).drop_first() =~= entries@.skip(i + 1));
        i = i + 1;
    }
    proof { assert(entries@.skip(i as int).len() == 0); }
    None
}

pub fn normalize_feature(value: i128, feature_type: &FeatureType, config: &FeatureConfig) -> (r: Result<i128, AutoTradeError>)
    requires
        normalize_fits(value as int, norm_lookup(config.normalization@, feature_name(feature_type))),
    ensures
        r == normalized_value(value as int, norm_lookup(config.normalization@, feature_name(feature_type))),
{
    let feature_name = feature_type_name(feature_type);
    match find_normalization(&config.normalization, &feature_name) {
        Some(params) => {
            let range = params.max - params.min;
            if range <= 0 {
                return Err(AutoTradeError::InvalidPriceData);
            }
            let normalized = ((value - params.min) * PRECISION) / range;
            Ok(clamp_i128(normalized, 0, PRECISION))
        },
        None => Ok(value),
    }
}

// Market data the model reads. These are fixed readings until a price
// feed is wired to the strategy.
pub open spec fn current_price_spec() -> int { 100_000 }
pub open spec fn volume_24h_spec() -> int { 500_000 }
pub open spec fn rsi_spec() -> int { 5_500 }
pub open spec fn macd_spec() -> (int, int) { (200, 150) }
pub open spec fn bollinger_spec() -> (int, int, int) { (110_000, 90_000, 100_000) }
pub open spec fn price_ago_spec() -> int { 95_000 }
pub open spec fn current_volume_spec() -> int { 10_000 }
pub open spec fn volume_ago_spec() -> int { 9_000 }
pub open spec fn portfolio_value_spec() -> int { 1_000_000 }

fn get_current_price(_asset_pair: &AssetPair) -> (r: i128)
    ensures r == current_price_spec(),
{
    100_000
}

fn get_24h_volume(_asset_pair: &AssetPair) -> (r: i128)
    ensures r == volume_24h_spec(),
{
    500_000
}

fn calculate_rsi(_asset_pair: &AssetPair, _period: u32) -> (r: u32)
    ensures r == rsi_spec(),
{
    5_500
}

fn calculate_macd(_asset_pair: &AssetPair) -> (r: (i128, i128))
    ensures r.0 == macd_spec().0 && r.1 == macd_spec().1,
{
    (200, 150)
}

fn calculate_bollinger_bands(_asset_pair: &AssetPair, _period: u32, _stddev: u32) -> (r: (i128, i128, i128))
    ensures r.0 == bollinger_spec().0 && r.1 == bollinger_spec().1 && r.2 == bollinger_spec().2,
{
    (110_000, 90_000, 100_000)
}

fn get_price_n_periods_ago(_asset_pair: &AssetPair, _periods: u32) -> (r: i128)
    ensures r == price_ago_spec(),
{
    95_000
}

fn get_current_volume(_asset_pair: &AssetPair) -> (r: i128)
    ensures r == current_volume_spec(),
{
    10_000
}

fn get_volume_n_periods_ago(_asset_pair: &AssetPair, _periods: u32) -> (r: i128)
    ensures r == volume_ago_spec(),
{
    9_000
}

fn calculate_custom_feature(_asset_pair: &AssetPair, _name: &String, _calculation: &String) -> (r: i128)
    ensures r == 0,
{
    0
}

fn get_portfolio_value(_user: AccountId) -> (r: i128)
    ensures r == portfolio_value_spec(),
{
    1_000_000
}

/// The raw reading of one feature, before scaling.
pub open spec fn raw_feature(ft: &FeatureType) -> int {
    match ft {
        FeatureType::Price => current_price_spec(),
        FeatureType::Volume => volume_24h_spec(),
        FeatureType::RSI => rsi_spec(),
        FeatureType::MACD => macd_spec().0 - macd_spec().1,
        FeatureType::BollingerBands => {
            let (upper, lower, _) = bollinger_spec();
            tdiv((current_price_spec() - lower) * 10_000, upper - lower)
        },
        FeatureType::PriceChange(_) => tdiv((current_price_spec() - price_ago_spec()) * 10_000, price_ago_spec()),
        FeatureType::VolumeChange(_) => tdiv((current_volume_spec() - volume_ago_spec()) * 10_000, volume_ago_spec()),
        FeatureType::Custom(_, _) => 0,
    }
}

fn read_feature(asset_pair: &AssetPair, feature_type: &FeatureType) -> (r: i128)
    ensures
        r == raw_feature(feature_type),
{
    match feature_type {
        FeatureType::Price => get_current_price(asset_pair),
        FeatureType::Volume => get_24h_volume(asset_pair),
        FeatureType::RSI => calculate_rsi(asset_pair, 14) as i128,
        FeatureType::MACD => {
            let (macd, signal) = calculate_macd(asset_pair);
            macd - signal
        },
        FeatureType::BollingerBands => {
            let (upper, lower, _) = calculate_bollinger_bands(asset_pair, 20, 2);
            let current_price = get_current_price(asset_pair);
            ((current_price - lower) * PRECISION) / (upper - lower)
        },
        FeatureType::PriceChange(periods) => {
            let current = get_current_price(asset_pair);
            let past = get_price_n_periods_ago(asset_pair, *periods);
            ((current - past) * PRECISION) / past
        },
        FeatureType::VolumeChange(periods) => {
            let current = get_current_volume(asset_pair);
            let past = get_volume_n_periods_ago(asset_pair, *periods);
            ((current - past) * PRECISION) / past
        },
        FeatureType::Custom(name, calculation) => calculate_custom_feature(asset_pair, name, calculation),
    }
}

/// Scaled features for the first `k` feature types, or the first error.
pub open spec fn extracted(features: Seq<FeatureType>, norm: Seq<(String, NormalizationParams)>, k: int) -> Result<Seq<i128>, AutoTradeError>
    decreases k,
{
    if k <= 0 {
        Ok(Seq::empty())
    } else {
        match extracted(features, norm, k - 1) {
            Err(e) => Err(e),
            Ok(prefix) => match normalized_value(raw_feature(&features[k - 1]), norm_lookup(norm, feature_name(&features[k - 1]))) {
                Err(e) => Err(e),
                Ok(v) => Ok(prefix.push(v)),
            },
        }
    }
}

pub open spec fn features_fit(config: &FeatureConfig) -> bool {
    forall|i: int| 0 <= i < config.features@.len() ==>
        normalize_fits(raw_feature(&config.features@[i]), norm_lookup(config.normalization@, #[trigger] feature_name(&config.features@[i])))
}

proof fn lemma_extract_err_sticks(features: Seq<FeatureType>, norm: Seq<(String, NormalizationParams)>, k: int, n: int)
    requires
        0 <= k <= n,
        extracted(features, norm, k) is Err,
    ensures
        extracted(features, norm, n) == extracted(features, norm, k),
    decreases n - k,
{
    if k < n {
        lemma_extract_err_sticks(features, norm, k, n - 1);
    }
}

/// Read and scale every configured feature, in order.
pub fn extract_features(asset_pair: &AssetPair, feature_config: &FeatureConfig) -> (r: Result<Vec<i128>, AutoTradeError>)
    requires
        features_fit(feature_config),
    ensures
        match r {
            Ok(v) => extracted(feature_config.features@, feature_config.normalization@, feature_config.features@.len() as int) == Ok::<Seq<i128>, AutoTradeError>(v@),
            Err(e) => extracted(feature_config.features@, feature_config.normalization@, feature_config.features@.len() as int) == Err::<Seq<i128>, AutoTradeError>(e),
        },
{
    let mut features: Vec<i128> = Vec::new();
    let mut i: usize = 0;
    while i < feature_config.features.len()
        invariant
            i <= feature_config.features@.len(),
            features_fit(feature_config),
            extracted(feature_config.features@, feature_config.normalization@, i as int) == Ok::<Seq<i128>, AutoTradeError>(features@),
        decreases feature_config.features@.len() - i,
    {
        let feature_type = &feature_config.features[i];
        let value = read_feature(asset_pair, feature_type);
        assert(normalize_fits(raw_feature(&feature_config.features@[i as int]),
            norm_lookup(feature_config.normalization@, feature_name(&feature_config.features@[i as int]))));
        match normalize_feature(value, feature_type, feature_config) {
            Ok(normalized) => features.push(normalized),
            Err(e) => {
                proof {
                    lemma_extract_err_sticks(feature_config.features@, feature_config.normalization@, i + 1, feature_config.features@.len() as int);
                }
                return Err(e);
            },
        }
        i = i + 1;
    }
    Ok(features)
}


// ---------------------------------------------------------------------------
// Strategies, positions and track record
// ---------------------------------------------------------------------------

#[derive(Clone, Copy, Debug, PartialEq, Eq, Structural)]
pub struct MLPosition {
    /// Zero means no open position.
    pub position_id: u64,
    pub predicted_direction: TradeDirection,
    pub prediction_confidence: u32,
    pub entry_price: i128,
    pub amount: i128,
}

/// The position value that stands for "no open position".
pub fn ml_position_absent() -> (r: MLPosition)
    ensures
        r == (MLPosition { position_id: 0, predicted_direction: TradeDirection::Buy, prediction_confidence: 0, entry_price: 0, amount: 0 }),
{
    MLPosition { position_id: 0, predicted_direction: TradeDirection::Buy, prediction_confidence: 0, entry_price: 0, amount: 0 }
}

pub struct MLSignal {
    pub direction: TradeDirection,
    pub confidence: u32,
    pub features: Vec<i128>,
    pub model_version: u32,
}

#[derive(Clone, Copy, Debug, PartialEq, Eq, Structural)]
pub struct MLModelPerformance {
    pub model_version: u32,
    pub total_predictions: u32,
    pub accurate_predictions: u32,
    pub false_positives: u32,
    pub false_negatives: u32,
    pub avg_confidence_on_correct: u32,
    pub avg_confidence_on_incorrect: u32,
    pub sharpe_ratio: i32,
}

#[derive(Clone, Copy, Debug, PartialEq, Eq, Structural)]
pub struct PredictionRecord {
    pub confidence: u32,
    pub was_correct: bool,
}

pub struct MLTradingStrategy {
    pub strategy_id: u64,
    pub user: AccountId,
    pub asset_pair: AssetPair,
    pub model: MLModel,
    pub feature_config: FeatureConfig,
    /// Minimum confidence to trade, in basis points.
    pub prediction_threshold: u32,
    pub position_size_pct: u32,
    /// `position_id == 0` means no active position.
    pub active_position: MLPosition,
    pub model_version: u32,
    pub last_model_update: u64,
}

/// Strategies by id, their track records, and the position id counter.
pub struct MLBook {
    pub strategies: OrdMap<MLTradingStrategy>,
    pub performance: OrdMap<MLModelPerformance>,
    pub position_counter: u64,
}

pub open spec fn fresh_performance(model_version: u32) -> MLModelPerformance {
    MLModelPerformance {
        model_version,
        total_predictions: 0,
        accurate_predictions: 0,
        false_positives: 0,
        false_negatives: 0,
        avg_confidence_on_correct: 0,
        avg_confidence_on_incorrect: 0,
        sharpe_ratio: 0,
    }
}

/// A track record never counts more correct predictions than predictions.
pub open spec fn performance_ok(p: MLModelPerformance) -> bool {
    p.accurate_predictions <= p.total_predictions
}

/// The record after one more prediction is scored.
pub open spec fn scored(p: MLModelPerformance, position: MLPosition, actual_outcome: bool) -> MLModelPerformance {
    let total = (p.total_predictions + 1) as u32;
    let bullish = position.predicted_direction == TradeDirection::Buy;
    if bullish == actual_outcome {
        MLModelPerformance {
            total_predictions: total,
            accurate_predictions: (p.accurate_predictions + 1) as u32,
            avg_confidence_on_correct: ((p.avg_confidence_on_correct * p.accurate_predictions + position.prediction_confidence)
                / (p.accurate_predictions + 1)) as u32,
            ..p
        }
    } else {
        let prev_incorrect = (total - p.accurate_predictions - 1) as u32;
        MLModelPerformance {
            total_predictions: total,
            false_positives: if bullish { (p.false_positives + 1) as u32 } else { p.false_positives },
            false_negatives: if bullish { p.false_negatives } else { (p.false_negatives + 1) as u32 },
            avg_confidence_on_incorrect: ((p.avg_confidence_on_incorrect * prev_incorrect + position.prediction_confidence)
                / (prev_incorrect + 1)) as u32,
            ..p
        }
    }
}

/// Room to score one more prediction.
pub open spec fn can_score(p: MLModelPerformance) -> bool {
    &&& p.total_predictions < u32::MAX
    &&& p.false_positives < u32::MAX
    &&& p.false_negatives < u32::MAX
}

pub open spec fn count_correct(records: Seq<PredictionRecord>) -> int
    decreases records.len(),
{
    if records.len() == 0 {
        0
    } else {
        count_correct(records.drop_last()) + if records.last().was_correct { 1int } else { 0int }
    }
}

proof fn lemma_count_correct_bounds(records: Seq<PredictionRecord>)
    ensures
        0 <= count_correct(records) <= records.len(),
    decreases records.len(),
{
    if records.len() > 0 {
        lemma_count_correct_bounds(records.drop_last());
    }
}

/// Recent accuracy has fallen below 80% of the historical accuracy; both in
/// basis points. Needs at least 20 recent records and some history.
pub open spec fn drifted(p: MLModelPerformance, recent: Seq<PredictionRecord>) -> bool {
    if recent.len() < 20 || p.total_predictions == 0 {
        false
    } else {
        let recent_accuracy = count_correct(recent) * 10_000 / recent.len() as int;
        let historical = p.accurate_predictions * 10_000 / p.total_predictions as int;
        recent_accuracy < historical * 80 / 100
    }
}

pub fn detect_drift(performance: &MLModelPerformance, recent: &Vec<PredictionRecord>) -> (r: bool)
    requires
        recent@.len() >= 20 && performance.total_predictions > 0 ==> {
            &&& recent@.len() * 10_000 <= u32::MAX
            &&& performance.accurate_predictions * 10_000 <= u32::MAX
            &&& performance_ok(*performance)
        },
    ensures
        r == drifted(*performance, recent@),
{
    if recent.len() < 20 || performance.total_predictions == 0 {
        return false;
    }
    let mut correct: u32 = 0;
    let mut i: usize = 0;
    while i < recent.len()
        invariant
            i <= recent@.len(),
            recent@.len() * 10_000 <= u32::MAX,
            correct == count_correct(recent@.take(i as int)),
            correct <= i,
        decreases recent@.len() - i,
    {
        assert(recent@.take(i + 1).drop_last() =~= recent@.take(i as int));
        if recent[i].was_correct {
            correct = correct + 1;
        }
        i = i + 1;
    }
    assert(recent@.take(recent@.len() as int) =~= recent@);
    let n = recent.len() as u32;
    let recent_accuracy = (correct * 10000) / n;
    let historical_accuracy = (performance.accurate_predictions * 10000) / performance.total_predictions;
    assert(historical_accuracy as int <= performance.accurate_predictions as int * 10_000) by (nonlinear_arith)
        requires historical_accuracy as int == (performance.accurate_predictions as int * 10000) / performance.total_predictions as int,
            performance.total_predictions > 0;
    assert(historical_accuracy as int <= 10_000) by (nonlinear_arith)
        requires historical_accuracy as int == (performance.accurate_predictions as int * 10000) / performance.total_predictions as int,
            performance.total_predictions > 0, performance.accurate_predictions <= performance.total_predictions;
    let drift_threshold = (historical_accuracy * 80) / 100;
    recent_accuracy < drift_threshold
}

impl MLBook {
    pub open spec fn wf(&self) -> bool {
        forall|k: u128| #[trigger] self.performance@.contains_key(k) ==> performance_ok(self.performance@[k])
    }

    /// The record kept for a strategy, or a fresh one for a known strategy.
    pub open spec fn performance_of(&self, strategy_id: u64) -> Result<MLModelPerformance, AutoTradeError> {
        if self.performance@.contains_key(strategy_id as u128) {
            Ok(self.performance@[strategy_id as u128])
        } else if self.strategies@.contains_key(strategy_id as u128) {
            Ok(fresh_performance(self.strategies@[strategy_id as u128].model_version))
        } else {
            Err(AutoTradeError::StrategyNotFound)
        }
    }

    pub fn new() -> (b: Self)
        ensures
            b.wf(),
            b.strategies@ == Map::<u128, MLTradingStrategy>::empty(),
            b.performance@ == Map::<u128, MLModelPerformance>::empty(),
            b.position_counter == 0,
    {
        MLBook { strategies: OrdMap::new(), performance: OrdMap::new(), position_counter: 0 }
    }

    /// Store a strategy under its id.
    pub fn set_strategy(&mut self, strategy: MLTradingStrategy)
        ensures
            final(self).strategies@ == old(self).strategies@.insert(strategy.strategy_id as u128, strategy),
            final(self).performance@ == old(self).performance@,
            final(self).position_counter == old(self).position_counter,
    {
        let k = strategy.strategy_id as u128;
        self.strategies.insert(k, strategy);
    }

    fn get_ml_performance(&self, strategy_id: u64) -> (r: Result<MLModelPerformance, AutoTradeError>)
        ensures
            r == self.performance_of(strategy_id),
    {
        match self.performance.get(strategy_id as u128) {
            Some(p) => Ok(*p),
            None => match self.strategies.get(strategy_id as u128) {
                Some(s) => Ok(MLModelPerformance {
                    model_version: s.model_version,
                    total_predictions: 0,
                    accurate_predictions: 0,
                    false_positives: 0,
                    false_negatives: 0,
                    avg_confidence_on_correct: 0,
                    avg_confidence_on_incorrect: 0,
                    sharpe_ratio: 0,
                }),
                None => Err(AutoTradeError::StrategyNotFound),
            },
        }
    }

    /// The strategy's features and model stay within arithmetic range.
    pub open spec fn signal_fits(&self, strategy_id: u64) -> bool {
        let s = self.strategies@[strategy_id as u128];
        self.strategies@.contains_key(strategy_id as u128) ==> {
            &&& features_fit(&s.feature_config)
            &&& (extracted(s.feature_config.features@, s.feature_config.normalization@, s.feature_config.features@.len() as int)
                    matches Ok(f) ==> model_fits(&s.model, f))
        }
    }

    /// Predict with the strategy's model and emit a signal when confident
    /// enough and no position is open.
    pub fn check_ml_signal(&self, strategy_id: u64) -> (r: Result<Option<MLSignal>, AutoTradeError>)
        requires
            self.signal_fits(strategy_id),
        ensures
            ({
                let s = self.strategies@[strategy_id as u128];
                let f = extracted(s.feature_config.features@, s.feature_config.normalization@, s.feature_config.features@.len() as int);
                if !self.strategies@.contains_key(strategy_id as u128) {
                    r == Err::<Option<MLSignal>, AutoTradeError>(AutoTradeError::StrategyNotFound)
                } else if s.active_position.position_id != 0 {
                    r matches Ok(None)
                } else {
                    match f {
                        Err(e) => r == Err::<Option<MLSignal>, AutoTradeError>(e),
                        Ok(fv) => match model_prediction(&s.model, fv) {
                            Err(e) => r == Err::<Option<MLSignal>, AutoTradeError>(e),
                            Ok(p) => if p.confidence < s.prediction_threshold {
                                r matches Ok(None)
                            } else {
                                r matches Ok(Some(sig)) && sig.direction == p.direction && sig.confidence == p.confidence
                                    && sig.features@ == fv && sig.model_version == s.model_version
                            },
                        },
                    }
                }
            }),
    {
        let strategy = match self.strategies.get(strategy_id as u128) {
            Some(s) => s,
            None => return Err(AutoTradeError::StrategyNotFound),
        };
        if strategy.active_position.position_id != 0 {
            return Ok(None);
        }
        let features = extract_features(&strategy.asset_pair, &strategy.feature_config)?;
        let prediction = predict_with_model(&strategy.model, &features)?;
        if prediction.confidence < strategy.prediction_threshold {
            return Ok(None);
        }
        Ok(Some(MLSignal {
            direction: prediction.direction,
            confidence: prediction.confidence,
            features,
            model_version: strategy.model_version,
        }))
    }

    /// Open a position sized by the strategy's share of the portfolio,
    /// scaled by the signal's confidence.
    pub fn execute_ml_trade(&mut self, strategy_id: u64, signal: MLSignal) -> (r: Result<u64, AutoTradeError>)
        requires
            old(self).position_counter < u64::MAX,
        ensures
            final(self).performance@ == old(self).performance@,
            !old(self).strategies@.contains_key(strategy_id as u128) ==> {
                &&& r == Err::<u64, AutoTradeError>(AutoTradeError::StrategyNotFound)
                &&& final(self).strategies@ == old(self).strategies@
                &&& final(self).position_counter == old(self).position_counter
            },
            old(self).strategies@.contains_key(strategy_id as u128) ==> {
                let s = old(self).strategies@[strategy_id as u128];
                let id = (old(self).position_counter + 1) as u64;
                let base = tdiv(portfolio_value_spec() * s.position_size_pct, 10_000);
                &&& r == Ok::<u64, AutoTradeError>(id)
                &&& final(self).position_counter == id
                &&& final(self).strategies@ == old(self).strategies@.insert(strategy_id as u128, MLTradingStrategy {
                        active_position: MLPosition {
                            position_id: id,
                            predicted_direction: signal.direction,
                            prediction_confidence: signal.confidence,
                            entry_price: current_price_spec() as i128,
                            amount: tdiv(base * signal.confidence, 10_000) as i128,
                        },
                        ..s
                    })
            },
    {
        let mut strategy = match self.strategies.remove(strategy_id as u128) {
            Some(s) => s,
            None => return Err(AutoTradeError::StrategyNotFound),
        };
        let portfolio_value = get_portfolio_value(strategy.user);
        let base_size = (portfolio_value * strategy.position_size_pct as i128) / 10000;
        assert(0 <= base_size <= 1_000_000 * 0xffff_ffff) by (nonlinear_arith)
            requires base_size == (1_000_000 * strategy.position_size_pct) / 10000, strategy.position_size_pct <= 0xffff_ffff;
        assert(0 <= base_size * signal.confidence <= 1_000_000 * 0xffff_ffff * 0xffff_ffff) by (nonlinear_arith)
            requires 0 <= base_size <= 1_000_000 * 0xffff_ffff, signal.confidence <= 0xffff_ffff;
        let confidence_scaled = (base_size * signal.confidence as i128) / 10000;
        self.position_counter = self.position_counter + 1;
        let position_id = self.position_counter;
        let current_price = get_current_price(&strategy.asset_pair);
        strategy.active_position = MLPosition {
            position_id,
            predicted_direction: signal.direction,
            prediction_confidence: signal.confidence,
            entry_price: current_price,
            amount: confidence_scaled,
        };
        self.strategies.insert(strategy_id as u128, strategy);
        proof {
            assert(self.strategies@ =~= old(self).strategies@.insert(strategy_id as u128, self.strategies@[strategy_id as u128]));
        }
        Ok(position_id)
    }

    /// Install a newer, well-formed model.
    pub fn update_ml_model(&mut self, strategy_id: u64, new_model: MLModel, new_version: u32, now: u64) -> (r: Result<(), AutoTradeError>)
        requires
            new_model matches MLModel::LogisticRegression(_, b) ==> b != i128::MIN,
        ensures
            final(self).performance@ == old(self).performance@,
            final(self).position_counter == old(self).position_counter,
            ({
                let s = old(self).strategies@[strategy_id as u128];
                if !old(self).strategies@.contains_key(strategy_id as u128) {
                    r == Err::<(), AutoTradeError>(AutoTradeError::StrategyNotFound) && final(self).strategies@ == old(self).strategies@
                } else if new_version <= s.model_version {
                    r == Err::<(), AutoTradeError>(AutoTradeError::InvalidAmount) && final(self).strategies@ == old(self).strategies@
                } else if model_valid(&new_model) is Err {
                    r == model_valid(&new_model) && final(self).strategies@ == old(self).strategies@
                } else {
                    &&& r == Ok::<(), AutoTradeError>(())
                    &&& final(self).strategies@ == old(self).strategies@.insert(strategy_id as u128, MLTradingStrategy {
                            model: new_model,
                            model_version: new_version,
                            last_model_update: now,
                            ..s
                        })
                }
            }),
    {
        let mut strategy = match self.strategies.remove(strategy_id as u128) {
            Some(s) => s,
            None => return Err(AutoTradeError::StrategyNotFound),
        };
        let k = strategy_id as u128;
        if new_version <= strategy.model_version {
            self.strategies.insert(k, strategy);
            proof { assert(self.strategies@ =~= old(self).strategies@); }
            return Err(AutoTradeError::InvalidAmount);
        }
        match validate_model_structure(&new_model) {
            Ok(()) => {},
            Err(e) => {
                self.strategies.insert(k, strategy);
                proof { assert(self.strategies@ =~= old(self).strategies@); }
                return Err(e);
            },
        }
        strategy.model = new_model;
        strategy.model_version = new_version;
        strategy.last_model_update = now;
        self.strategies.insert(k, strategy);
        proof {
            assert(self.strategies@ =~= old(self).strategies@.insert(k, self.strategies@[k]));
        }
        Ok(())
    }

    /// Score a closed position's prediction against what happened.
    pub fn track_ml_performance(&mut self, strategy_id: u64, position: &MLPosition, actual_outcome: bool) -> (r: Result<(), AutoTradeError>)
        requires
            old(self).wf(),
            old(self).performance_of(strategy_id) matches Ok(p) ==> can_score(p),
        ensures
            final(self).wf(),
            final(self).strategies@ == old(self).strategies@,
            final(self).position_counter == old(self).position_counter,
            match old(self).performance_of(strategy_id) {
                Err(e) => r == Err::<(), AutoTradeError>(e) && final(self).performance@ == old(self).performance@,
                Ok(p) => r == Ok::<(), AutoTradeError>(())
                    && final(self).performance@ == old(self).performance@.insert(strategy_id as u128, scored(p, *position, actual_outcome)),
            },
    {
        let mut performance = self.get_ml_performance(strategy_id)?;
        proof {
            if old(self).performance@.contains_key(strategy_id as u128) {
                assert(performance_ok(old(self).performance@[strategy_id as u128]));
            }
        }
        performance.total_predictions = performance.total_predictions + 1;
        let predicted_bullish = match position.predicted_direction {
            TradeDirection::Buy => true,
            TradeDirection::Sell => false,
        };
        if predicted_bullish == actual_outcome {
            let prev_correct = performance.accurate_predictions;
            performance.accurate_predictions = performance.accurate_predictions + 1;
            performance.avg_confidence_on_correct = weighted_avg_u32(
                performance.avg_confidence_on_correct,
                prev_correct,
                position.prediction_confidence,
            );
        } else {
            if predicted_bullish {
                performance.false_positives = performance.false_positives + 1;
            } else {
                performance.false_negatives = performance.false_negatives + 1;
            }
            let incorrect_count = performance.total_predictions - performance.accurate_predictions;
            let prev_incorrect = incorrect_count - 1;
            performance.avg_confidence_on_incorrect = weighted_avg_u32(
                performance.avg_confidence_on_incorrect,
                prev_incorrect,
                position.prediction_confidence,
            );
        }
        let ghost p0 = old(self).performance_of(strategy_id)->Ok_0;
        assert(performance == scored(p0, *position, actual_outcome));
        self.performance.insert(strategy_id as u128, performance);
        Ok(())
    }

    /// Whether recent accuracy has drifted below the historical record.
    /// Recent prediction outcomes are not recorded yet, so the recent window
    /// is empty and no drift is reported for a known strategy.
    pub fn detect_model_drift(&self, strategy_id: u64) -> (r: Result<bool, AutoTradeError>)
        requires
            self.wf(),
        ensures
            match self.performance_of(strategy_id) {
                Err(e) => r == Err::<bool, AutoTradeError>(e),
                Ok(p) => r == Ok::<bool, AutoTradeError>(drifted(p, Seq::empty())),
            },
    {
        let performance = self.get_ml_performance(strategy_id)?;
        let recent: Vec<PredictionRecord> = Vec::new();
        Ok(detect_drift(&performance, &recent))
    }
}

}
