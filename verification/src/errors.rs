use vstd::prelude::*;

verus! {

/// Errors returned by the contract logic.
#[derive(Clone, Copy, Debug, PartialEq, Eq, Structural)]
pub enum Error {
    Unauthorized,
    AdminNotSet,
    MarketNotFound,
    MarketClosed,
    MarketNotResolved,
    InvalidOutcome,
    InvalidInput,
    InvalidState,
    InvalidDuration,
    InvalidFeeConfig,
    InsufficientStake,
    NothingToClaim,
    AlreadyClaimed,
    FeeAlreadyCollected,
    FeeArithmeticOverflow,
    NoPendingFeeCommit,
    FeeRevealTooEarly,
    FeePreimageMismatch,
    ConfigNotFound,
    OracleUnavailable,
    FallbackOracleUnavailable,
    SweepAlreadyDone,
    ForceResolveReasonEmpty,
    ForceResolveReplayed,
    GasBudgetExceeded,
    OperationWouldExceedBudget,
    AlreadyVoted,
    InvalidOutcomes,
    InvalidQuestion,
    MarketResolved,
    BetsAlreadyPlaced,
    ResolutionTimeoutReached,
    NoFeesToCollect,
    ReplayedOverride,
    Overflow,
    DuplicateMarketId,
}

} // verus!
