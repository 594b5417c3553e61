use vstd::prelude::*;

verus! {

/// Errors raised by the pool math, the pool parsers and the routing logic.
#[derive(Debug, Clone, Copy, PartialEq, Eq, Structural)]
pub enum ErrorCode {
    InvalidPoolOwner,
    TokenMismatch,
    ZeroLiquidity,
    MathOverflow,
    ZeroPrice,
    InvalidAccount,
    InvalidTokenPair,
    BinIdOutOfRange,
    NoProfit,
    WrongCalculation,
    InvalidFeeSchedulerMode,
    InvalidActivationType,
    InvalidCollectFeeMode,
    ZeroAmountInput,
    InvalidMemoProgram,
    ZeroAmountSpecified,
    InvalidSqrtPriceLimit,
    TooSmallInputOrOutputAmount,
    LiquidityInsufficient,
    InvalidAccountData,
    NoValidMintFound,
    MaxTokenOverflow,
    SqrtPriceLimitOverflow,
    InvalidTickIndex,
    InvalidTickSpacing,
    InvalidSqrtPrice,
    CalculateOverflow,
    InvalidClmmParams,
    InvalidTickArrayBoundary,
    DivideByZero,
    InvalidDynTick,
    Unspecified,
}

} // verus!
