//! Liquifunding: after a position's fees and price exposure are settled,
//! deciding whether it stays open, and when it is next due.
use crate::error::PerpError;
use crate::funding::LiquidityStats;
use crate::lock::{liquidity_update_locked, spec_liquidity_update_locked};
use crate::number::{opt_view, Number};
use crate::open::{margin_total, spec_margin_total};
use crate::position::{spec_leverage_to_notional, LiquidationMargin, Position};
use crate::price::{MarketType, PricePoint};
use crate::settlement::{MaybeClosedPosition, PositionFeeSettlement};
use crate::update::{long_to_base, spec_long_to_base};
use vstd::prelude::*;

verus! {

/// What becomes of a position once liquifunded.
#[derive(Clone, Copy, Debug, PartialEq, Eq, Structural)]
pub enum LiquifundDecision {
    /// It stays open, with the liquidation margin for the next period.
    Open(Position),
    /// Its collateral no longer covers the margin for the next period: it
    /// is liquidated, with no exposure left to realize.
    Liquidated(Position),
    /// Its direction to base flipped: it closes taking its maximum gains.
    MaxGains(Position),
}

/// The decision for a position whose exposure has been settled at the end
/// price: the locked liquidity first absorbs the exposure (the pool loses
/// what the trader gains); then the position is liquidated when its active
/// collateral is at most its new liquidation margin, closes at maximum gains
/// when its direction to base differs from the one it had before the
/// settlement (`was_long_to_base`), and otherwise stays open with the new
/// margin.
pub open spec fn spec_liquifund_decision(
    pos: Position,
    exposure: int,
    stats: LiquidityStats,
    end_price: PricePoint,
    liquidation_margin: LiquidationMargin,
    was_long_to_base: bool,
    market_type: MarketType,
) -> Result<(LiquifundDecision, LiquidityStats), PerpError> {
    match spec_liquidity_update_locked(stats, -exposure) {
        Err(e) => Err(e),
        Ok(locked) => match spec_margin_total(liquidation_margin) {
            None => Err(PerpError::Arithmetic),
            Some(total) => if pos.active_collateral@ <= total {
                Ok((LiquifundDecision::Liquidated(pos), locked))
            } else {
                match spec_long_to_base(
                    spec_leverage_to_notional(pos.notional_size@, end_price.price_notional@, pos.active_collateral@),
                    market_type,
                ) {
                    None => Err(PerpError::Arithmetic),
                    Some(long) => if long != was_long_to_base {
                        Ok((LiquifundDecision::MaxGains(pos), locked))
                    } else {
                        Ok((LiquifundDecision::Open(Position { liquidation_margin, ..pos }), locked))
                    },
                }
            },
        },
    }
}

/// Decides what becomes of a liquifunded position (see
/// [`spec_liquifund_decision`]). The exposure and the new margin come from
/// the position's own model.
pub fn liquifund_decision(
    pos: Position,
    exposure: Number,
    stats: LiquidityStats,
    end_price: &PricePoint,
    liquidation_margin: LiquidationMargin,
    was_long_to_base: bool,
    market_type: MarketType,
) -> (r: Result<(LiquifundDecision, LiquidityStats), PerpError>)
    requires
        stats.wf(),
    ensures
        r == spec_liquifund_decision(pos, exposure@, stats, *end_price, liquidation_margin, was_long_to_base, market_type),
{
    let locked = liquidity_update_locked(stats, exposure.neg())?;
    let total = match margin_total(&liquidation_margin) {
        Some(t) => t,
        None => return Err(PerpError::Arithmetic),
    };
    if pos.active_collateral.le(&total) {
        return Ok((LiquifundDecision::Liquidated(pos), locked));
    }
    let long = long_to_base(&pos, end_price, market_type)?;
    if long != was_long_to_base {
        Ok((LiquifundDecision::MaxGains(pos), locked))
    } else {
        Ok((LiquifundDecision::Open(Position { liquidation_margin, ..pos }), locked))
    }
}

/// When a position liquifunded at `liquifunded_at` (seconds) is next due:
/// after the configured delay, brought forward by a semi-random amount
/// below the configured fuzz to spread the crank's load. A fuzz of zero, or
/// one larger than the delay allows, leaves the plain delay.
pub open spec fn spec_next_liquifunding(liquifunded_at: u64, delay: u32, fuzz: u32, semi_random: u64) -> int {
    if fuzz == 0 {
        liquifunded_at + delay
    } else {
        let early = (semi_random as int) % (fuzz as int);
        if early > delay {
            liquifunded_at + delay
        } else {
            liquifunded_at + delay - early
        }
    }
}

/// When a position is next due for liquifunding (see
/// [`spec_next_liquifunding`]); `semi_random` is any value that varies
/// between positions.
pub fn next_liquifunding(liquifunded_at: u64, delay: u32, fuzz: u32, semi_random: u64) -> (r: u64)
    requires
        liquifunded_at + delay <= u64::MAX,
    ensures
        r == spec_next_liquifunding(liquifunded_at, delay, fuzz, semi_random),
        liquifunded_at <= r <= liquifunded_at + delay,
{
    let plain = liquifunded_at + delay as u64;
    if fuzz == 0 {
        return plain;
    }
    let early = semi_random % (fuzz as u64);
    if early > delay as u64 {
        plain
    } else {
        liquifunded_at + (delay as u64 - early)
    }
}

/// How settling a position's price exposure over the period came out, as
/// the position's own model computes it from the fee-settled position and
/// the start and end prices: the position afterwards, the exposure that the
/// liquidity pool takes on (positive when the trader gains), and whether
/// the exposure closes the position.
#[derive(Clone, Copy, Debug, PartialEq, Eq, Structural)]
pub struct PriceExposure {
    pub pos: Position,
    pub exposure: Number,
    pub closes: bool,
}

/// What liquifunding does to a position.
#[derive(Clone, Copy, Debug, PartialEq, Eq, Structural)]
pub enum LiquifundResult {
    /// It stays open, due again at `next_liquifunding` (seconds).
    Open { pos: Position, next_liquifunding: u64 },
    /// Its fees took its collateral: liquidated, with nothing else settled.
    FeesLiquidated(Position),
    /// Its price exposure closed it.
    ExposureClosed(Position),
    /// Its collateral no longer covers the margin for the next period.
    Liquidated(Position),
    /// Its direction to base flipped: it closes at its maximum gains.
    MaxGains(Position),
}

/// The whole liquifunding step after the fees are settled (see
/// [`position_liquifund`]).
pub open spec fn spec_position_liquifund(
    settled: MaybeClosedPosition,
    exposure: PriceExposure,
    stats: LiquidityStats,
    end_price: PricePoint,
    liquidation_margin: LiquidationMargin,
    was_long_to_base: bool,
    market_type: MarketType,
    ends_at: u64,
    delay: u32,
    fuzz: u32,
    semi_random: u64,
) -> Result<(LiquifundResult, Option<LiquidityStats>), PerpError> {
    match settled {
        MaybeClosedPosition::Liquidated { pos, .. } => Ok((LiquifundResult::FeesLiquidated(pos), None)),
        MaybeClosedPosition::Open(_) => if exposure.closes {
            match spec_liquidity_update_locked(stats, -exposure.exposure@) {
                Err(e) => Err(e),
                Ok(locked) => Ok((LiquifundResult::ExposureClosed(exposure.pos), Some(locked))),
            }
        } else {
            match spec_liquifund_decision(
                exposure.pos,
                exposure.exposure@,
                stats,
                end_price,
                liquidation_margin,
                was_long_to_base,
                market_type,
            ) {
                Err(e) => Err(e),
                Ok((LiquifundDecision::Open(p), locked)) => Ok(
                    (
                        LiquifundResult::Open {
                            pos: p,
                            next_liquifunding: spec_next_liquifunding(ends_at, delay, fuzz, semi_random) as u64,
                        },
                        Some(locked),
                    ),
                ),
                Ok((LiquifundDecision::Liquidated(p), locked)) => Ok((LiquifundResult::Liquidated(p), Some(locked))),
                Ok((LiquifundDecision::MaxGains(p), locked)) => Ok((LiquifundResult::MaxGains(p), Some(locked))),
            }
        },
    }
}

/// Liquifunds a position whose fees were settled (by
/// [`crate::settlement::position_fee_settlement`]) up to `ends_at`: a
/// position liquidated by its fees stops there, with no liquidity update;
/// otherwise the pool takes on the price exposure, and a position that the
/// exposure did not close is decided on (see [`spec_liquifund_decision`]),
/// one that stays open being due again after the configured delay, brought
/// forward by the fuzz (see [`spec_next_liquifunding`]). The price exposure
/// and the margin for the next period come from the position's model.
pub fn position_liquifund(
    settlement: &PositionFeeSettlement,
    exposure: PriceExposure,
    stats: LiquidityStats,
    end_price: &PricePoint,
    liquidation_margin: LiquidationMargin,
    was_long_to_base: bool,
    market_type: MarketType,
    ends_at: u64,
    delay: u32,
    fuzz: u32,
    semi_random: u64,
) -> (r: Result<(LiquifundResult, Option<LiquidityStats>), PerpError>)
    requires
        stats.wf(),
        ends_at + delay <= u64::MAX,
    ensures
        r == spec_position_liquifund(
            settlement.position,
            exposure,
            stats,
            *end_price,
            liquidation_margin,
            was_long_to_base,
            market_type,
            ends_at,
            delay,
            fuzz,
            semi_random,
        ),
{
    match settlement.position {
        MaybeClosedPosition::Liquidated { pos, .. } => Ok((LiquifundResult::FeesLiquidated(pos), None)),
        MaybeClosedPosition::Open(_) => {
            if exposure.closes {
                let locked = liquidity_update_locked(stats, exposure.exposure.neg())?;
                return Ok((LiquifundResult::ExposureClosed(exposure.pos), Some(locked)));
            }
            let (decision, locked) = liquifund_decision(
                exposure.pos,
                exposure.exposure,
                stats,
                end_price,
                liquidation_margin,
                was_long_to_base,
                market_type,
            )?;
            match decision {
                LiquifundDecision::Open(p) => {
                    let next = next_liquifunding(ends_at, delay, fuzz, semi_random);
                    Ok((LiquifundResult::Open { pos: p, next_liquifunding: next }, Some(locked)))
                },
                LiquifundDecision::Liquidated(p) => Ok((LiquifundResult::Liquidated(p), Some(locked))),
                LiquifundDecision::MaxGains(p) => Ok((LiquifundResult::MaxGains(p), Some(locked))),
            }
        },
    }
}

} // verus!
