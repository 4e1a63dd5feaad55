pub mod breakout;
pub mod ml_prediction;
pub mod sentiment;
pub mod stat_arb;
pub mod pairs_trading;
pub mod arbitrage;
pub mod dca;
pub mod mean_reversion;
pub mod momentum;
pub mod grid;
