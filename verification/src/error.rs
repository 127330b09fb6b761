//! Errors reported by the library.
use crate::number::Number;
use crate::oracle::OracleError;
use crate::price::{DirectionToBase, MarketType};
use vstd::prelude::*;

verus! {

/// Why an operation was refused.
#[derive(Clone, Copy, Debug, PartialEq, Eq, Structural)]
pub enum PerpError {
    /// A checked arithmetic step overflowed or divided by zero.
    Arithmetic,
    /// The protocol-wide funding margin is less than a position's own margin.
    TotalMarginBelowPositionMargin,
    /// No USD price was provided and none can be derived from the pair.
    MissingPriceUsd,
    /// The provided USD price differs from the one derived from the pair.
    ConflictingPriceUsd,
    /// Adjusting open interest would leave the long interest negative.
    LongInterestWouldBeNegative,
    /// Adjusting open interest would leave the short interest negative.
    ShortInterestWouldBeNegative,
    /// A borrow fee rate is negative.
    NegativeBorrowRate,
    /// A trading fee cannot be received without liquidity.
    NoLiquidity,
    /// There are no protocol fees to transfer.
    NoDaoFees,
    /// A value was appended to a series before its last point.
    TimeWentBackwards,
    /// A series has no point at or before the requested time.
    MissingDataPoint,
    /// The total funding margin would overflow or become negative.
    FundingMarginOutOfRange,
    /// The delta neutrality fund would become negative.
    NegativeDeltaNeutralityFund,
    /// A closing position's loss exceeds its active collateral.
    ExposureExceedsActiveCollateral,
    /// A closing position's gain exceeds its counter collateral.
    ExposureExceedsCounterCollateral,
    /// Paying the delta neutrality fee would leave the active collateral negative.
    NegativeActiveCollateral,
    /// No spot price is known yet.
    MissingSpotPrice,
    /// An infinite take profit price is refused for this market and direction.
    InvalidInfiniteTakeProfitPrice { market_type: MarketType, direction: DirectionToBase },
    /// The counter collateral would be zero.
    ZeroCounterCollateral,
    /// The take profit price would give a negative counter collateral.
    NegativeCounterCollateral,
    /// The funds sent do not cover the crank fee.
    InsufficientFundsForCrankFee,
    /// An update of the position is already queued.
    PositionUpdateAlreadyPending,
    /// Closing the position is already queued.
    PositionAlreadyClosing,
    /// Canceling the limit order is already queued.
    LimitOrderAlreadyCanceling,
    /// The position or order that a queued item targets does not exist.
    TargetNotFound,
    /// The sender does not own the position or order.
    NotOwner,
    /// A queued item's identifier is unknown.
    DeferredExecNotFound,
    /// A queued item's status does not allow the reply.
    UnexpectedDeferredStatus,
    /// The liquidity provider holds no LP tokens.
    NoLpTokens,
    /// The liquidity provider holds no xLP tokens.
    NoXlpTokens,
    /// More tokens were asked for than are held.
    InsufficientTokens,
    /// The liquidity provider is not unstaking.
    NotUnstaking,
    /// There is no yield to claim.
    NoYieldToClaim,
    /// An amount that may not be negative came out negative.
    NegativeAmount,
    /// The liquidity provider deposited too recently to move LP tokens.
    LiquidityCooldown { ends_at: u64, seconds_remaining: u64 },
    /// A deposit would take the market above its maximum liquidity (all
    /// amounts in USD but the price).
    MaxLiquidity { price_collateral_in_usd: Number, current: Number, deposit: Number, max: Number },
    /// The deposit is worth less than one atom of LP tokens.
    ZeroShares,
    /// The pool has tokens outstanding but no collateral to price them by.
    PoolWithoutCollateral,
    /// Tokens cannot be valued: the pool holds no collateral.
    EmptyPool,
    /// A withdrawal would return no collateral.
    ZeroWithdrawal,
    /// The provider has no LP tokens to withdraw.
    NoLiquidityDeposited,
    /// More LP tokens were asked for than the provider holds.
    WithdrawTooMuch { requested: Number, available: Number },
    /// The withdrawal would leave less unlocked liquidity than the open
    /// interest needs; `unlocked` is what may be withdrawn.
    InsufficientLiquidityForWithdrawal { requested_lp: Number, requested_collateral: Number, unlocked: Number },
    /// No tokens are left in the pool but more than dust of collateral is.
    CollateralLeftWithoutTokens,
    /// The sender may not act on this token.
    Unauthorized,
    /// An approval or operator would be given with an expiration already past.
    Expired,
    /// The spender has no approval for the token.
    ApprovalNotFound,
    /// More yield was asked to be reinvested than is available.
    InsufficientForReinvest { requested: Number, available: Number },
    /// An allowance cannot be given to the owner itself.
    OwnAllowance,
    /// There is no allowance.
    NoAllowance,
    /// The allowance has expired.
    AllowanceExpired,
    /// The allowance is smaller than the amount.
    InsufficientAllowance,
    /// The configured maximum leverage is negative.
    NegativeMaxLeverage,
    /// The trader's leverage (to base, in absolute value) is zero or above the maximum.
    TraderLeverageOutOfRange { high_allowed: Number, new_leverage: Number, current_leverage: Option<Number> },
    /// An update would change the position's direction.
    DirectionChanged,
    /// The deposit is worth too little in USD.
    MinimumDeposit { deposit_collateral: Number, deposit_usd: Number, minimum_usd: Number },
    /// The price including the delta neutrality fee is beyond the asserted
    /// price and tolerance; the slippage is in percent (none when it cannot
    /// be computed).
    SlippageExceeded { slippage: Option<Number>, price_with_fee: Number, asserted_price: Number },
    /// The oracle price could not be had.
    Oracle { error: OracleError },
    /// The oracle feeds give no publish time.
    NoPricePublishTimeFound,
    /// The market is halted while liquidity providers' balances are reset.
    ResettingLpBalances,
    /// No limit order has this identifier.
    MissingLimitOrder { id: u64 },
    /// No open position has this identifier.
    MissingPosition { id: u64 },
    /// An update would flip the position's direction to base.
    DirectionToBaseFlipped,
    /// Resizing a position would scale it by zero or less.
    ZeroScaleFactor,
    /// A position's notional size would be (about) zero.
    ZeroNotionalSize,
    /// Fees would leave the position no active collateral.
    ActiveCollateralExhausted,
    /// The active collateral does not cover the liquidation margin.
    InsufficientMargin { active_collateral: Number, liquidation_margin: Number },
    /// Not enough unlocked liquidity for the collateral to lock.
    Liquidity { requested: Number, total_unlocked: Number, allowed: Number },
    /// The locked liquidity would become negative.
    NegativeLockedLiquidity,
    /// Less liquidity is locked than is to be unlocked.
    InsufficientLiquidityForUnlock { requested: Number, total_locked: Number },
    /// The carry leverage is zero.
    ZeroCarryLeverage,
    /// The market is already too long; going longer is refused.
    DeltaNeutralityFeeAlreadyLong {
        cap: Number,
        sensitivity: Number,
        instant_before: Number,
        net_notional_before: Number,
        net_notional_after: Number,
    },
    /// The market is already too short; going shorter is refused.
    DeltaNeutralityFeeAlreadyShort {
        cap: Number,
        sensitivity: Number,
        instant_before: Number,
        net_notional_before: Number,
        net_notional_after: Number,
    },
    /// The change would newly make the market too long.
    DeltaNeutralityFeeNewlyLong {
        cap: Number,
        sensitivity: Number,
        instant_after: Number,
        net_notional_before: Number,
        net_notional_after: Number,
    },
    /// The change would newly make the market too short.
    DeltaNeutralityFeeNewlyShort {
        cap: Number,
        sensitivity: Number,
        instant_after: Number,
        net_notional_before: Number,
        net_notional_after: Number,
    },
    /// The change would swing the market from too short to too long.
    DeltaNeutralityFeeShortToLong {
        cap: Number,
        sensitivity: Number,
        instant_before: Number,
        instant_after: Number,
        net_notional_before: Number,
        net_notional_after: Number,
    },
    /// The change would swing the market from too long to too short.
    DeltaNeutralityFeeLongToShort {
        cap: Number,
        sensitivity: Number,
        instant_before: Number,
        instant_after: Number,
        net_notional_before: Number,
        net_notional_after: Number,
    },
}

} // verus!
