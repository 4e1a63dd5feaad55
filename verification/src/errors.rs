//! Errors returned by the auto-trade contract.
use vstd::prelude::*;

verus! {

/// Auto-trade contract errors. Related sub-errors share one variant; the
/// associated constants below name the finer reasons.
#[derive(Clone, Copy, Debug, PartialEq, Eq, Structural)]
pub enum AutoTradeError {
    InvalidAmount,
    Unauthorized,
    SignalNotFound,
    SignalExpired,
    InsufficientBalance,
    InsufficientLiquidity,
    DailyTradeLimitExceeded,
    PositionLimitExceeded,
    StopLossTriggered,
    TradingPaused,
    StrategyNotFound,
    PositionAlreadyExists,
    InvalidBasketSize,
    InsufficientPriceHistory,
    InvalidPriceData,
    NonCointegratedBasket,
    ActivePortfolioExists,
    NoActivePortfolio,
    NoTradeSignal,
    InvalidStatArbConfig,
    ExitStrategyNotFound,
    InvalidExitConfig,
    InsuranceNotConfigured,
    InvalidInsuranceConfig,
    ReferralError,
    TWAPError,
    CorrelationLimitExceeded,
    TooManyCorrelatedPositions,
    ConditionalOrderError,
    InvalidConditionalConfig,
    RateLimitExceeded,
    PairsStrategyNotFound,
    PairsPositionError,
    InsufficientCorrelation,
    PairNotCointegrated,
    InvalidPairsConfig,
    OracleUnavailable,
    DcaError,
    MrStrategyError,
    AdminTransferError,
    RoutingPlanNotFound,
    ArbitrageError,
    FrontRunningRisk,
    SystemError,
    SlippageExceeded,
    RankingDisabled,
    LastOracleForPair,
    NotPaused,
}

#[allow(non_upper_case_globals)]
impl AutoTradeError {
    pub const SelfReferral: AutoTradeError = AutoTradeError::ReferralError;
    pub const ReferralAlreadySet: AutoTradeError = AutoTradeError::ReferralError;
    pub const CircularReferral: AutoTradeError = AutoTradeError::ReferralError;
    pub const ReferralLimitExceeded: AutoTradeError = AutoTradeError::ReferralError;
    pub const InvalidTWAPDuration: AutoTradeError = AutoTradeError::TWAPError;
    pub const TWAPOrderNotFound: AutoTradeError = AutoTradeError::TWAPError;
    pub const NotTWAPOwner: AutoTradeError = AutoTradeError::TWAPError;
    pub const TWAPNotActive: AutoTradeError = AutoTradeError::TWAPError;
    pub const ConditionalOrderNotFound: AutoTradeError = AutoTradeError::ConditionalOrderError;
    pub const ConditionalOrderNotPending: AutoTradeError = AutoTradeError::ConditionalOrderError;
    pub const ConditionalOrderNotTriggered: AutoTradeError = AutoTradeError::ConditionalOrderError;
    pub const RateLimitPenalty: AutoTradeError = AutoTradeError::RateLimitExceeded;
    pub const BelowMinTransfer: AutoTradeError = AutoTradeError::RateLimitExceeded;
    pub const CooldownNotElapsed: AutoTradeError = AutoTradeError::RateLimitExceeded;
    pub const HourlyTransferLimitExceeded: AutoTradeError = AutoTradeError::RateLimitExceeded;
    pub const HourlyVolumeLimitExceeded: AutoTradeError = AutoTradeError::RateLimitExceeded;
    pub const DailyTransferLimitExceeded: AutoTradeError = AutoTradeError::RateLimitExceeded;
    pub const DailyVolumeLimitExceeded: AutoTradeError = AutoTradeError::RateLimitExceeded;
    pub const GlobalCapacityExceeded: AutoTradeError = AutoTradeError::RateLimitExceeded;
    pub const PairsActivePositionExists: AutoTradeError = AutoTradeError::PairsPositionError;
    pub const PairsNoActivePosition: AutoTradeError = AutoTradeError::PairsPositionError;
    pub const DcaStrategyNotFound: AutoTradeError = AutoTradeError::DcaError;
    pub const DcaStrategyInactive: AutoTradeError = AutoTradeError::DcaError;
    pub const DcaEndTimeReached: AutoTradeError = AutoTradeError::DcaError;
    pub const MrStrategyNotFound: AutoTradeError = AutoTradeError::MrStrategyError;
    pub const MrInsufficientHistory: AutoTradeError = AutoTradeError::MrStrategyError;
    pub const MrLowVolatility: AutoTradeError = AutoTradeError::MrStrategyError;
    pub const PendingAdminNotFound: AutoTradeError = AutoTradeError::AdminTransferError;
    pub const PendingAdminExpired: AutoTradeError = AutoTradeError::AdminTransferError;
    pub const ArbitrageOpportunityExpired: AutoTradeError = AutoTradeError::ArbitrageError;
    pub const ArbitrageUnprofitable: AutoTradeError = AutoTradeError::ArbitrageError;
    pub const ArbTooLarge: AutoTradeError = AutoTradeError::ArbitrageError;
    pub const AtomicExecutionFailed: AutoTradeError = AutoTradeError::SystemError;
    pub const BridgePaused: AutoTradeError = AutoTradeError::SystemError;
    pub const RecoveryNotFound: AutoTradeError = AutoTradeError::SystemError;
    pub const RecoveryIncomplete: AutoTradeError = AutoTradeError::SystemError;
}

}
