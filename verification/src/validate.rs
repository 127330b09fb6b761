//! Checks on a position before it is opened or updated: the trader's
//! leverage, the minimum deposit and the slippage the trader accepts.
use crate::dnf::{approx_zero, calc_delta_neutrality_fee, is_approx_zero, spec_run};
use crate::error::PerpError;
use crate::number::{abs, checked, number_of, opt_number, opt_view, scale, trunc_div, trunc_mul, Number};
use crate::position::{leverage_to_base, spec_leverage_to_base, spec_leverage_to_notional, Position};
use crate::price::{into_notional_price, spec_into_base, spec_into_notional_price, MarketType, PricePoint};
use vstd::prelude::*;

verus! {

broadcast use crate::number::group_number_of;

/// The leverage to base, in absolute value, of a leverage to notional.
pub open spec fn spec_base_magnitude(leverage_to_notional: int, market_type: MarketType) -> Option<int> {
    match spec_leverage_to_base(leverage_to_notional, market_type) {
        Some(b) => Some(abs(b)),
        None => None,
    }
}

/// Whether a new leverage is refused: a leverage to notional of about zero
/// always is; otherwise a leverage above the maximum is, unless it does not
/// exceed the current one.
pub open spec fn spec_leverage_out_of_range(max: int, new_leverage_notional: int, new_base: int, current_base: Option<int>) -> bool {
    if approx_zero(new_leverage_notional) {
        true
    } else {
        match current_base {
            Some(c) => if c >= new_base {
                false
            } else {
                new_base > max
            },
            None => new_base > max,
        }
    }
}

fn base_magnitude(leverage_to_notional: Number, market_type: MarketType) -> (r: Result<Number, PerpError>)
    ensures
        match spec_base_magnitude(leverage_to_notional@, market_type) {
            Some(b) => r matches Ok(x) && x@ == b,
            None => r == Err::<Number, PerpError>(PerpError::Arithmetic),
        },
{
    let b = leverage_to_base(leverage_to_notional, market_type)?;
    Ok(b.abs())
}

/// The leverages to base, in absolute value, of the current leverage to
/// notional when there is one: `None` when it overflows.
pub open spec fn spec_current_base(current: Option<int>, market_type: MarketType) -> Option<Option<int>> {
    match current {
        None => Some(None),
        Some(c) => match spec_base_magnitude(c, market_type) {
            Some(b) => Some(Some(b)),
            None => None,
        },
    }
}

/// The outcome of checking a new leverage to notional against the maximum.
pub open spec fn spec_trader_leverage(
    max_leverage: Number,
    market_type: MarketType,
    new_leverage_notional: int,
    current_leverage: Option<int>,
) -> Result<(), PerpError> {
    if max_leverage@ < 0 {
        Err(PerpError::NegativeMaxLeverage)
    } else {
        match spec_current_base(current_leverage, market_type) {
            None => Err(PerpError::Arithmetic),
            Some(current_base) => match spec_base_magnitude(new_leverage_notional, market_type) {
                None => Err(PerpError::Arithmetic),
                Some(new_base) => if spec_leverage_out_of_range(max_leverage@, new_leverage_notional, new_base, current_base) {
                    Err(
                        PerpError::TraderLeverageOutOfRange {
                            high_allowed: max_leverage,
                            new_leverage: number_of(new_base),
                            current_leverage: opt_number(current_base),
                        },
                    )
                } else {
                    Ok(())
                },
            },
        }
    }
}

/// Checks a trader's new leverage to notional against the configured
/// maximum, in leverage to base: the maximum may not be negative; a new
/// leverage of about zero is refused; one above the maximum is refused
/// unless the position already had at least that leverage (`current`), so
/// that a trader may always reduce it.
pub fn position_validate_trader_leverage(
    max_leverage: Number,
    market_type: MarketType,
    new_leverage_notional: Number,
    current_leverage: Option<Number>,
) -> (r: Result<(), PerpError>)
    ensures
        r == spec_trader_leverage(max_leverage, market_type, new_leverage_notional@, opt_view(current_leverage)),
{
    if max_leverage.is_negative() {
        return Err(PerpError::NegativeMaxLeverage);
    }
    let current = match current_leverage {
        Some(c) => Some(base_magnitude(c, market_type)?),
        None => None,
    };
    let new_base = base_magnitude(new_leverage_notional, market_type)?;
    let out_of_range = if is_approx_zero(&new_leverage_notional) {
        true
    } else {
        match current {
            Some(c) => if new_base.le(&c) {
                false
            } else {
                max_leverage.lt(&new_base)
            },
            None => max_leverage.lt(&new_base),
        }
    };
    if out_of_range {
        Err(PerpError::TraderLeverageOutOfRange { high_allowed: max_leverage, new_leverage: new_base, current_leverage: current })
    } else {
        Ok(())
    }
}

/// Whether an update changes the position's direction.
pub open spec fn spec_direction_changed(current: Option<Position>, new_position: Position) -> bool {
    match current {
        Some(c) => (c.notional_size@ >= 0) != (new_position.notional_size@ >= 0),
        None => false,
    }
}

/// The outcome of checking a new or updated position's leverage.
pub open spec fn spec_leverage_data(
    max_leverage: Number,
    market_type: MarketType,
    new_position: Position,
    price_point: PricePoint,
    current_position: Option<Position>,
) -> Result<(), PerpError> {
    if spec_direction_changed(current_position, new_position) {
        Err(PerpError::DirectionChanged)
    } else {
        match spec_leverage_to_notional(new_position.notional_size@, price_point.price_notional@, new_position.active_collateral@) {
            None => Err(PerpError::Arithmetic),
            Some(new_l) => match current_position {
                None => spec_trader_leverage(max_leverage, market_type, new_l, None),
                Some(c) => match spec_leverage_to_notional(c.notional_size@, price_point.price_notional@, c.active_collateral@) {
                    None => Err(PerpError::Arithmetic),
                    Some(cur_l) => spec_trader_leverage(max_leverage, market_type, new_l, Some(cur_l)),
                },
            },
        }
    }
}

/// Checks a new or updated position's leverage: an update may not change
/// the position's direction to base, and the new active leverage must pass
/// [`position_validate_trader_leverage`], against the current position's
/// active leverage when there is one.
pub fn position_validate_leverage_data(
    max_leverage: Number,
    market_type: MarketType,
    new_position: &Position,
    price_point: &PricePoint,
    current_position: Option<&Position>,
) -> (r: Result<(), PerpError>)
    ensures
        r == spec_leverage_data(
            max_leverage,
            market_type,
            *new_position,
            *price_point,
            match current_position {
                Some(c) => Some(*c),
                None => None,
            },
        ),
{
    if let Some(current) = current_position {
        let before = is_long_to_base(current, market_type);
        let after = is_long_to_base(new_position, market_type);
        if before != after {
            return Err(PerpError::DirectionChanged);
        }
    }
    let new_l = new_position.active_leverage_to_notional(price_point)?;
    let cur_l = match current_position {
        Some(c) => Some(c.active_leverage_to_notional(price_point)?),
        None => None,
    };
    position_validate_trader_leverage(max_leverage, market_type, new_l, cur_l)
}

/// The position's direction to base, as a flag (long).
fn is_long_to_base(pos: &Position, market_type: MarketType) -> (r: bool)
    ensures
        r == (spec_into_base(
            if pos.notional_size@ >= 0 {
                crate::price::DirectionToNotional::Long
            } else {
                crate::price::DirectionToNotional::Short
            },
            market_type,
        ) == crate::price::DirectionToBase::Long),
{
    let dir = pos.direction().into_base(market_type);
    match dir {
        crate::price::DirectionToBase::Long => true,
        crate::price::DirectionToBase::Short => false,
    }
}

/// Share of the minimum deposit actually required, allowing for a 10% dip
/// in prices (`0.9`, in atoms).
pub open spec fn minimum_deposit_ratio() -> int {
    900_000_000_000_000_000
}

/// The outcome of checking a deposit against the minimum.
pub open spec fn spec_minimum_deposit(minimum_deposit_usd: Number, deposit_collateral: Number, price_point: PricePoint) -> Result<(), PerpError> {
    match (price_point.spec_collateral_to_usd(deposit_collateral@), checked(trunc_mul(minimum_deposit_usd@, minimum_deposit_ratio()))) {
        (Some(deposit), Some(required)) => if deposit < required {
            Err(PerpError::MinimumDeposit { deposit_collateral, deposit_usd: number_of(deposit), minimum_usd: minimum_deposit_usd })
        } else {
            Ok(())
        },
        _ => Err(PerpError::Arithmetic),
    }
}

/// Checks that a deposit is worth, in USD, at least 90% of the configured
/// minimum.
pub fn validate_minimum_deposit_collateral(
    minimum_deposit_usd: Number,
    deposit_collateral: Number,
    price_point: &PricePoint,
) -> (r: Result<(), PerpError>)
    ensures
        r == spec_minimum_deposit(minimum_deposit_usd, deposit_collateral, *price_point),
{
    let deposit = match price_point.collateral_to_usd(&deposit_collateral) {
        Some(d) => d,
        None => return Err(PerpError::Arithmetic),
    };
    let ratio = Number::from_atoms(900_000_000_000_000_000i128).unwrap();
    let required = match minimum_deposit_usd.checked_mul(&ratio) {
        Some(m) => m,
        None => return Err(PerpError::Arithmetic),
    };
    if deposit.lt(&required) {
        Err(PerpError::MinimumDeposit { deposit_collateral, deposit_usd: deposit, minimum_usd: minimum_deposit_usd })
    } else {
        Ok(())
    }
}

/// A price the trader expects, as a base-in-quote price, and the relative
/// tolerance around it.
#[derive(Clone, Copy, Debug, PartialEq, Eq, Structural)]
pub struct SlippageAssert {
    pub price: Number,
    pub tolerance: Number,
}

/// What a slippage check concludes, given the delta neutrality fee: `None`
/// when the price with the fee is within the tolerance, otherwise the price
/// with the fee, the asserted notional price, and whether the slippage
/// could be computed.
pub open spec fn spec_slippage(
    fee: int,
    delta: int,
    price_notional: int,
    asserted_base: int,
    tolerance: int,
    market_type: MarketType,
) -> Result<Option<(int, int)>, PerpError> {
    match checked(trunc_div(fee, delta)) {
        None => Err(PerpError::Arithmetic),
        Some(rate) => match checked(scale() + rate) {
            None => Err(PerpError::Arithmetic),
            Some(factor) => match checked(trunc_mul(price_notional, factor)) {
                None => Err(PerpError::Arithmetic),
                Some(price) => match spec_into_notional_price(asserted_base, market_type) {
                    None => Err(PerpError::Arithmetic),
                    Some(asserted) => if delta > 0 {
                        match checked(scale() + tolerance) {
                            None => Err(PerpError::Arithmetic),
                            Some(up) => match checked(trunc_mul(asserted, up)) {
                                None => Err(PerpError::Arithmetic),
                                Some(limit) => if price <= limit {
                                    Ok(None)
                                } else {
                                    Ok(Some((price, asserted)))
                                },
                            },
                        }
                    } else {
                        match checked(scale() - tolerance) {
                            None => Err(PerpError::Arithmetic),
                            Some(down) => match checked(trunc_mul(asserted, down)) {
                                None => Err(PerpError::Arithmetic),
                                Some(limit) => if price >= limit {
                                    Ok(None)
                                } else {
                                    Ok(Some((price, asserted)))
                                },
                            },
                        }
                    },
                },
            },
        },
    }
}

/// The slippage in percent, `100 * (price - asserted) / asserted` when
/// buying and `100 * (asserted - price) / asserted` when selling: `None`
/// when the product overflows, `Some(None)` when only the division fails.
pub open spec fn spec_slippage_percent(price: int, asserted: int, buying: bool) -> Option<Option<int>> {
    let diff = if buying {
        price - asserted
    } else {
        asserted - price
    };
    match checked(diff) {
        None => None,
        Some(d) => match checked(trunc_mul(100 * scale(), d)) {
            None => None,
            Some(p) => Some(
                if asserted == 0 {
                    None
                } else {
                    checked(trunc_div(p, asserted))
                },
            ),
        },
    }
}

/// The outcome of a slippage check for moving the net notional by `delta`.
pub open spec fn spec_slippage_assert(
    cap: int,
    sensitivity: int,
    net_notional: int,
    total_in_fund: int,
    slippage_assert: SlippageAssert,
    delta: int,
    market_type: MarketType,
    delta_neutrality_fee_margin: Option<int>,
    price_point: PricePoint,
) -> Result<(), PerpError> {
    if delta == 0 {
        Ok(())
    } else {
        match spec_run(cap, sensitivity, price_point, total_in_fund, delta_neutrality_fee_margin, (0, net_notional, None), delta) {
            None => Err(PerpError::Arithmetic),
            Some((fee, _, _)) => match spec_slippage(
                fee,
                delta,
                price_point.price_notional@,
                slippage_assert.price@,
                slippage_assert.tolerance@,
                market_type,
            ) {
                Err(e) => Err(e),
                Ok(None) => Ok(()),
                Ok(Some((price, asserted))) => match spec_slippage_percent(price, asserted, delta > 0) {
                    None => Err(PerpError::Arithmetic),
                    Some(slippage) => Err(
                        PerpError::SlippageExceeded {
                            slippage: opt_number(slippage),
                            price_with_fee: number_of(price),
                            asserted_price: slippage_assert.price,
                        },
                    ),
                },
            },
        }
    }
}

/// Checks the price a trader asserted against the current price including
/// the delta neutrality fee for moving the net notional by `delta`: when
/// buying (positive delta) the price may not exceed the asserted one by
/// more than the tolerance, and when selling it may not fall below it by
/// more than the tolerance. A zero delta always passes.
pub fn do_slippage_assert(
    cap: Number,
    sensitivity: Number,
    net_notional: Number,
    total_in_fund: Number,
    slippage_assert: SlippageAssert,
    delta_notional_size: Number,
    market_type: MarketType,
    delta_neutrality_fee_margin: Option<Number>,
    price_point: &PricePoint,
) -> (r: Result<(), PerpError>)
    requires
        price_point.wf(),
    ensures
        r == spec_slippage_assert(
            cap@,
            sensitivity@,
            net_notional@,
            total_in_fund@,
            slippage_assert,
            delta_notional_size@,
            market_type,
            opt_view(delta_neutrality_fee_margin),
            *price_point,
        ),
{
    if delta_notional_size.is_zero() {
        return Ok(());
    }
    let fee = calc_delta_neutrality_fee(
        cap,
        sensitivity,
        net_notional,
        delta_notional_size,
        *price_point,
        delta_neutrality_fee_margin,
        total_in_fund,
    )?;
    let rate = lift(fee.checked_div(&delta_notional_size))?;
    let factor = lift(Number::one().checked_add(&rate))?;
    let price = lift(price_point.price_notional.checked_mul(&factor))?;
    let asserted = lift(into_notional_price(&slippage_assert.price, market_type))?;
    let buying = delta_notional_size.is_strictly_positive();
    let within = if buying {
        let up = lift(Number::one().checked_add(&slippage_assert.tolerance))?;
        let limit = lift(asserted.checked_mul(&up))?;
        price.le(&limit)
    } else {
        let down = lift(Number::one().checked_sub(&slippage_assert.tolerance))?;
        let limit = lift(asserted.checked_mul(&down))?;
        limit.le(&price)
    };
    if within {
        return Ok(());
    }
    let diff = if buying {
        lift(price.checked_sub(&asserted))?
    } else {
        lift(asserted.checked_sub(&price))?
    };
    let hundred = Number::from_u64(100);
    let p = lift(hundred.checked_mul(&diff))?;
    let slippage = p.checked_div(&asserted);
    Err(PerpError::SlippageExceeded { slippage, price_with_fee: price, asserted_price: slippage_assert.price })
}

fn lift(o: Option<Number>) -> (r: Result<Number, PerpError>)
    ensures
        match o {
            Some(v) => r == Ok::<Number, PerpError>(v),
            None => r == Err::<Number, PerpError>(PerpError::Arithmetic),
        },
{
    match o {
        Some(v) => Ok(v),
        None => Err(PerpError::Arithmetic),
    }
}

} // verus!
