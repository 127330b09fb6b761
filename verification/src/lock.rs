//! Locking and unlocking liquidity providers' collateral for positions.
use crate::error::PerpError;
use crate::funding::LiquidityStats;
use crate::number::{abs, checked, number_of, opt_view, trunc_div, Number};
use crate::price::PricePoint;
use vstd::prelude::*;

verus! {

broadcast use crate::number::group_number_of;

/// The unlocked liquidity that must remain for the market to carry its net
/// notional: the net notional's absolute value in collateral, over the carry
/// leverage.
pub open spec fn spec_min_unlocked_liquidity(net_notional: int, price: PricePoint, carry_leverage: int) -> Result<int, PerpError> {
    match price.spec_notional_to_collateral(abs(net_notional)) {
        None => Err(PerpError::Arithmetic),
        Some(c) => if carry_leverage == 0 {
            Err(PerpError::ZeroCarryLeverage)
        } else {
            match checked(trunc_div(c, carry_leverage)) {
                None => Err(PerpError::Arithmetic),
                Some(m) => Ok(m),
            }
        },
    }
}

/// The unlocked liquidity that must remain for the market to carry the
/// given net notional.
pub fn min_unlocked_liquidity(net_notional: Number, price: &PricePoint, carry_leverage: Number) -> (r: Result<Number, PerpError>)
    ensures
        match spec_min_unlocked_liquidity(net_notional@, *price, carry_leverage@) {
            Ok(m) => r matches Ok(x) && x@ == m,
            Err(e) => r == Err::<Number, PerpError>(e),
        },
{
    let in_collateral = match price.notional_to_collateral(&net_notional.abs()) {
        Some(c) => c,
        None => return Err(PerpError::Arithmetic),
    };
    if carry_leverage.is_zero() {
        return Err(PerpError::ZeroCarryLeverage);
    }
    match in_collateral.checked_div(&carry_leverage) {
        Some(m) => Ok(m),
        None => Err(PerpError::Arithmetic),
    }
}

/// Whether `after` is `before` with `amount` moved from unlocked to locked
/// (a negative amount moves it back), the token totals unchanged.
pub open spec fn moved_to_locked(before: LiquidityStats, after: LiquidityStats, amount: int) -> bool {
    &&& after.locked@ == before.locked@ + amount
    &&& after.unlocked@ == before.unlocked@ - amount
    &&& after.total_lp == before.total_lp
    &&& after.total_xlp == before.total_xlp
}

/// The outcome of locking `amount` of unlocked liquidity after the net
/// notional moves by `delta_notional`.
pub open spec fn spec_liquidity_lock(
    stats: LiquidityStats,
    amount: int,
    price: PricePoint,
    net_notional: int,
    delta_notional: Option<int>,
    carry_leverage: int,
) -> Result<LiquidityStats, PerpError> {
    let delta = match delta_notional {
        Some(d) => d,
        None => 0,
    };
    match checked(net_notional + delta) {
        None => Err(PerpError::Arithmetic),
        Some(net) => match spec_min_unlocked_liquidity(net, price, carry_leverage) {
            Err(e) => Err(e),
            Ok(min) => if !(checked(min + amount) is Some) {
                Err(PerpError::Arithmetic)
            } else if min + amount > stats.unlocked@ {
                Err(PerpError::Liquidity { requested: number_of(amount), total_unlocked: stats.unlocked, allowed: number_of(min) })
            } else if !(checked(stats.locked@ + amount) is Some) {
                Err(PerpError::Arithmetic)
            } else {
                Ok(
                    LiquidityStats {
                        locked: number_of(stats.locked@ + amount),
                        unlocked: number_of(stats.unlocked@ - amount),
                        total_lp: stats.total_lp,
                        total_xlp: stats.total_xlp,
                    },
                )
            },
        },
    }
}

/// Locks `amount` of unlocked liquidity for a position, after the net
/// notional moves by `delta_notional`: refused when what would remain
/// unlocked is less than the market needs to carry that net notional.
pub fn liquidity_lock(
    stats: LiquidityStats,
    amount: Number,
    price: &PricePoint,
    net_notional: Number,
    delta_notional: Option<Number>,
    carry_leverage: Number,
) -> (r: Result<LiquidityStats, PerpError>)
    requires
        stats.wf(),
        amount@ > 0,
        price.wf(),
        carry_leverage@ >= 0,
    ensures
        r == spec_liquidity_lock(stats, amount@, *price, net_notional@, opt_view(delta_notional), carry_leverage@),
        r matches Ok(after) ==> after.wf() && moved_to_locked(stats, after, amount@),
{
    let delta = match delta_notional {
        Some(d) => d,
        None => Number::zero(),
    };
    let net = match net_notional.checked_add(&delta) {
        Some(n) => n,
        None => return Err(PerpError::Arithmetic),
    };
    let min = min_unlocked_liquidity(net, price, carry_leverage)?;
    let needed = match min.checked_add(&amount) {
        Some(n) => n,
        None => return Err(PerpError::Arithmetic),
    };
    if stats.unlocked.lt(&needed) {
        return Err(PerpError::Liquidity { requested: amount, total_unlocked: stats.unlocked, allowed: min });
    }
    let locked = match stats.locked.checked_add(&amount) {
        Some(l) => l,
        None => return Err(PerpError::Arithmetic),
    };
    stats.unlocked.range_fact();
    amount.range_fact();
    let unlocked = stats.unlocked.checked_sub(&amount).unwrap();
    Ok(LiquidityStats { locked, unlocked, total_lp: stats.total_lp, total_xlp: stats.total_xlp })
}

/// The outcome of unlocking `amount` of locked liquidity.
pub open spec fn spec_liquidity_unlock(stats: LiquidityStats, amount: int) -> Result<LiquidityStats, PerpError> {
    if amount > stats.locked@ {
        Err(PerpError::InsufficientLiquidityForUnlock { requested: number_of(amount), total_locked: stats.locked })
    } else if !(checked(stats.unlocked@ + amount) is Some) {
        Err(PerpError::Arithmetic)
    } else {
        Ok(
            LiquidityStats {
                locked: number_of(stats.locked@ - amount),
                unlocked: number_of(stats.unlocked@ + amount),
                total_lp: stats.total_lp,
                total_xlp: stats.total_xlp,
            },
        )
    }
}

/// Unlocks `amount` of locked liquidity; refused when less is locked.
pub fn liquidity_unlock(stats: LiquidityStats, amount: Number) -> (r: Result<LiquidityStats, PerpError>)
    requires
        stats.wf(),
        amount@ > 0,
    ensures
        r == spec_liquidity_unlock(stats, amount@),
        r matches Ok(after) ==> after.wf() && moved_to_locked(stats, after, -amount@),
{
    if stats.locked.lt(&amount) {
        return Err(PerpError::InsufficientLiquidityForUnlock { requested: amount, total_locked: stats.locked });
    }
    let unlocked = match stats.unlocked.checked_add(&amount) {
        Some(u) => u,
        None => return Err(PerpError::Arithmetic),
    };
    stats.locked.range_fact();
    amount.range_fact();
    let locked = stats.locked.checked_sub(&amount).unwrap();
    Ok(LiquidityStats { locked, unlocked, total_lp: stats.total_lp, total_xlp: stats.total_xlp })
}

/// The outcome of changing the locked liquidity by a signed `amount`.
pub open spec fn spec_liquidity_update_locked(stats: LiquidityStats, amount: int) -> Result<LiquidityStats, PerpError> {
    match checked(stats.locked@ + amount) {
        None => Err(PerpError::Arithmetic),
        Some(l) => if l < 0 {
            Err(PerpError::NegativeLockedLiquidity)
        } else {
            Ok(LiquidityStats { locked: number_of(l), ..stats })
        },
    }
}

/// Changes the locked liquidity by a signed `amount` (liquidity providers
/// winning or losing), leaving the unlocked liquidity as it is; refused
/// when the locked liquidity would become negative.
pub fn liquidity_update_locked(stats: LiquidityStats, amount: Number) -> (r: Result<LiquidityStats, PerpError>)
    requires
        stats.wf(),
    ensures
        r == spec_liquidity_update_locked(stats, amount@),
        match checked(stats.locked@ + amount@) {
            None => r == Err::<LiquidityStats, PerpError>(PerpError::Arithmetic),
            Some(l) => if l < 0 {
                r == Err::<LiquidityStats, PerpError>(PerpError::NegativeLockedLiquidity)
            } else {
                r matches Ok(after) && after.wf() && after.locked@ == l && after.unlocked == stats.unlocked
                    && after.total_lp == stats.total_lp && after.total_xlp == stats.total_xlp
            },
        },
{
    let locked = match stats.locked.checked_add(&amount) {
        Some(l) => l,
        None => return Err(PerpError::Arithmetic),
    };
    if locked.is_negative() {
        return Err(PerpError::NegativeLockedLiquidity);
    }
    Ok(LiquidityStats { locked, unlocked: stats.unlocked, total_lp: stats.total_lp, total_xlp: stats.total_xlp })
}

/// A change of a position's counter collateral, as liquidity to lock or
/// to unlock.
#[derive(Clone, Copy, Debug, PartialEq, Eq, Structural)]
pub enum LiquidityUpdate {
    Lock(LiquidityStats),
    Unlock(LiquidityStats),
}

/// The outcome of following a change of counter collateral with the
/// liquidity.
pub open spec fn spec_liquidity_update(
    stats: LiquidityStats,
    counter_collateral_delta: int,
    price: PricePoint,
    net_notional: int,
    carry_leverage: int,
) -> Result<Option<LiquidityUpdate>, PerpError> {
    if counter_collateral_delta == 0 {
        Ok(None)
    } else if counter_collateral_delta > 0 {
        match spec_liquidity_lock(stats, counter_collateral_delta, price, net_notional, None, carry_leverage) {
            Err(e) => Err(e),
            Ok(after) => Ok(Some(LiquidityUpdate::Lock(after))),
        }
    } else {
        match spec_liquidity_unlock(stats, -counter_collateral_delta) {
            Err(e) => Err(e),
            Ok(after) => Ok(Some(LiquidityUpdate::Unlock(after))),
        }
    }
}

/// Locks liquidity for a growing counter collateral and unlocks it for a
/// shrinking one; no change needs no update.
pub fn liquidity_update(
    stats: LiquidityStats,
    counter_collateral_delta: Number,
    price: &PricePoint,
    net_notional: Number,
    carry_leverage: Number,
) -> (r: Result<Option<LiquidityUpdate>, PerpError>)
    requires
        stats.wf(),
        price.wf(),
        carry_leverage@ >= 0,
    ensures
        r == spec_liquidity_update(stats, counter_collateral_delta@, *price, net_notional@, carry_leverage@),
        r matches Ok(Some(LiquidityUpdate::Lock(after))) ==> after.wf() && moved_to_locked(stats, after, counter_collateral_delta@),
        r matches Ok(Some(LiquidityUpdate::Unlock(after))) ==> after.wf() && moved_to_locked(stats, after, counter_collateral_delta@),
{
    if counter_collateral_delta.is_zero() {
        Ok(None)
    } else if counter_collateral_delta.is_strictly_positive() {
        let after = liquidity_lock(stats, counter_collateral_delta, price, net_notional, None, carry_leverage)?;
        Ok(Some(LiquidityUpdate::Lock(after)))
    } else {
        let after = liquidity_unlock(stats, counter_collateral_delta.abs())?;
        Ok(Some(LiquidityUpdate::Unlock(after)))
    }
}

} // verus!
