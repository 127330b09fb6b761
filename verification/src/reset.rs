//! Resetting liquidity providers' balances once the pool holds no
//! collateral but tokens remain, and what is blocked meanwhile.
use crate::error::PerpError;
use crate::funding::LiquidityStats;
use crate::number::{checked, Number};
use vstd::prelude::*;

verus! {

/// What saving the pool's totals stores.
#[derive(Clone, Copy, Debug, PartialEq, Eq, Structural)]
pub struct SavedLiquidity {
    pub stats: LiquidityStats,
    /// Whether the crank must now reset every provider's balances.
    pub reset_started: bool,
}

/// Saving the pool's totals: when no collateral is left but LP or xLP
/// tokens remain, everything is zeroed and a reset of the providers'
/// balances begins; otherwise the totals are stored as they are.
pub open spec fn spec_save_liquidity_stats(stats: LiquidityStats) -> Result<bool, PerpError> {
    match (checked(stats.locked@ + stats.unlocked@), checked(stats.total_lp@ + stats.total_xlp@)) {
        (Some(collateral), Some(tokens)) => Ok(collateral == 0 && tokens != 0),
        _ => Err(PerpError::Arithmetic),
    }
}

/// Decides what saving the pool's totals stores (see
/// [`spec_save_liquidity_stats`]).
pub fn save_liquidity_stats(stats: LiquidityStats) -> (r: Result<SavedLiquidity, PerpError>)
    ensures
        match spec_save_liquidity_stats(stats) {
            Err(e) => r == Err::<SavedLiquidity, PerpError>(e),
            Ok(reset) => r matches Ok(saved) && saved.reset_started == reset && (reset ==> saved.stats.locked@ == 0
                && saved.stats.unlocked@ == 0 && saved.stats.total_lp@ == 0 && saved.stats.total_xlp@ == 0) && (!reset
                ==> saved.stats == stats),
        },
{
    let collateral = match stats.locked.checked_add(&stats.unlocked) {
        Some(c) => c,
        None => return Err(PerpError::Arithmetic),
    };
    let tokens = match stats.total_lp.checked_add(&stats.total_xlp) {
        Some(t) => t,
        None => return Err(PerpError::Arithmetic),
    };
    if collateral.is_zero() && !tokens.is_zero() {
        Ok(
            SavedLiquidity {
                stats: LiquidityStats {
                    locked: Number::zero(),
                    unlocked: Number::zero(),
                    total_lp: Number::zero(),
                    total_xlp: Number::zero(),
                },
                reset_started: true,
            },
        )
    } else {
        Ok(SavedLiquidity { stats, reset_started: false })
    }
}

/// The kinds of request the market handles.
#[derive(Clone, Copy, Debug, PartialEq, Eq, Structural)]
pub enum MarketMsgKind {
    Owner,
    Receive,
    OpenPosition,
    UpdatePositionAddCollateralImpactLeverage,
    UpdatePositionAddCollateralImpactSize,
    UpdatePositionRemoveCollateralImpactLeverage,
    UpdatePositionRemoveCollateralImpactSize,
    UpdatePositionLeverage,
    UpdatePositionMaxGains,
    UpdatePositionTakeProfitPrice,
    UpdatePositionStopLossPrice,
    SetTriggerOrder,
    ClosePosition,
    DepositLiquidity,
    ReinvestYield,
    WithdrawLiquidity,
    ClaimYield,
    StakeLp,
    UnstakeXlp,
    StopUnstakingXlp,
    CollectUnstakedLp,
    Crank,
    NftProxy,
    LiquidityTokenProxy,
    TransferDaoFees,
    CloseAllPositions,
    PlaceLimitOrder,
    CancelLimitOrder,
    ProvideCrankFunds,
    SetManualPrice,
    PerformDeferredExec,
}

/// Whether a request touches the liquidity: all do but owner requests, the
/// crank, providing crank funds and setting a manual price.
pub open spec fn spec_touches_liquidity(msg: MarketMsgKind) -> bool {
    !(msg == MarketMsgKind::Owner || msg == MarketMsgKind::Crank || msg == MarketMsgKind::ProvideCrankFunds || msg
        == MarketMsgKind::SetManualPrice)
}

/// Refuses a request that touches the liquidity while providers' balances
/// are being reset.
pub fn ensure_not_resetting_lps(msg: MarketMsgKind, resetting: bool) -> (r: Result<(), PerpError>)
    ensures
        r is Err <==> (spec_touches_liquidity(msg) && resetting),
        r is Err ==> r == Err::<(), PerpError>(PerpError::ResettingLpBalances),
{
    let touches = match msg {
        MarketMsgKind::Owner | MarketMsgKind::Crank | MarketMsgKind::ProvideCrankFunds | MarketMsgKind::SetManualPrice => false,
        _ => true,
    };
    if touches && resetting {
        Err(PerpError::ResettingLpBalances)
    } else {
        Ok(())
    }
}

} // verus!
