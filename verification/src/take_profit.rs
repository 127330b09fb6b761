//! Sizing a new position: its notional size and the counter collateral
//! that its take profit price asks of liquidity providers.
use crate::error::PerpError;
use crate::number::{abs, checked, in_range, max_int, min_int, odiv, scale, trunc_div, trunc_mul, Number};
use crate::price::{into_notional_price, spec_into_notional_price, DirectionToBase, MarketType, PricePoint};
use vstd::prelude::*;

verus! {

/// The price at which a trader takes profit.
#[derive(Clone, Copy, Debug, PartialEq, Eq, Structural)]
pub enum TakeProfitTrader {
    /// No limit on the gains.
    PosInfinity,
    /// A base-in-quote price (strictly positive).
    Finite(Number),
}

/// Leverage to notional, signed, for a leverage to base (a magnitude) and
/// a direction: the signed leverage to base itself when the quote is the
/// collateral, one minus it when the base is.
pub open spec fn spec_leverage_to_notional(leverage: int, direction: DirectionToBase, market_type: MarketType) -> Option<int> {
    let signed = match direction {
        DirectionToBase::Long => leverage,
        DirectionToBase::Short => -leverage,
    };
    match market_type {
        MarketType::CollateralIsQuote => Some(signed),
        MarketType::CollateralIsBase => checked(scale() - signed),
    }
}

/// The notional size in collateral: leverage to notional times collateral.
pub open spec fn spec_notional_in_collateral(leverage: int, direction: DirectionToBase, market_type: MarketType, collateral: int) -> Option<int> {
    match spec_leverage_to_notional(leverage, direction, market_type) {
        None => None,
        Some(l) => checked(trunc_mul(l, collateral)),
    }
}

/// The notional size of a position.
pub open spec fn spec_notional_size(
    leverage: int,
    direction: DirectionToBase,
    market_type: MarketType,
    price: PricePoint,
    collateral: int,
) -> Option<int> {
    match spec_notional_in_collateral(leverage, direction, market_type, collateral) {
        None => None,
        Some(c) => price.spec_collateral_to_notional(c),
    }
}

/// The counter collateral a take profit price asks for.
pub open spec fn spec_requested_counter_collateral(
    take_profit: TakeProfitTrader,
    leverage: int,
    direction: DirectionToBase,
    market_type: MarketType,
    price: PricePoint,
    collateral: int,
) -> Result<int, PerpError> {
    match spec_notional_size(leverage, direction, market_type, price, collateral) {
        None => Err(PerpError::Arithmetic),
        Some(notional) => match take_profit {
            TakeProfitTrader::PosInfinity => match spec_leverage_to_notional(leverage, direction, market_type) {
                None => Err(PerpError::Arithmetic),
                Some(l) => match checked(trunc_mul(l, collateral)) {
                    None => Err(PerpError::Arithmetic),
                    Some(c) => match market_type {
                        MarketType::CollateralIsQuote => Err(PerpError::InvalidInfiniteTakeProfitPrice { market_type, direction }),
                        MarketType::CollateralIsBase => if l >= 0 {
                            Err(PerpError::InvalidInfiniteTakeProfitPrice { market_type, direction })
                        } else if c == 0 {
                            Err(PerpError::ZeroCounterCollateral)
                        } else {
                            Ok(abs(c))
                        },
                    },
                },
            },
            TakeProfitTrader::Finite(tp) => match spec_into_notional_price(tp@, market_type) {
                None => Err(PerpError::Arithmetic),
                Some(tpn) => match checked(tpn - price.price_notional@) {
                    None => Err(PerpError::Arithmetic),
                    Some(d) => match checked(trunc_mul(d, notional)) {
                        None => Err(PerpError::Arithmetic),
                        Some(cc) => if cc < 0 {
                            Err(PerpError::NegativeCounterCollateral)
                        } else if cc == 0 {
                            Err(PerpError::ZeroCounterCollateral)
                        } else {
                            Ok(cc)
                        },
                    },
                },
            },
        },
    }
}

/// The counter collateral of a new position: the requested one, kept
/// between the notional value over the maximum leverage and the notional
/// value itself (a counter leverage between one and the maximum).
pub open spec fn spec_counter_collateral(
    take_profit: TakeProfitTrader,
    leverage: int,
    direction: DirectionToBase,
    market_type: MarketType,
    price: PricePoint,
    collateral: int,
    max_leverage: int,
) -> Result<int, PerpError> {
    match spec_notional_size(leverage, direction, market_type, price, collateral) {
        None => Err(PerpError::Arithmetic),
        Some(notional) => match price.spec_notional_to_collateral(abs(notional)) {
            None => Err(PerpError::Arithmetic),
            Some(max_cc) => match odiv(Some(max_cc), Some(max_leverage)) {
                None => Err(PerpError::Arithmetic),
                Some(min_cc) => match spec_requested_counter_collateral(
                    take_profit,
                    leverage,
                    direction,
                    market_type,
                    price,
                    collateral,
                ) {
                    Err(e) => Err(e),
                    Ok(req) => {
                        let cc = min_int(max_int(req, min_cc), max_cc);
                        if cc == 0 {
                            Err(PerpError::ZeroCounterCollateral)
                        } else {
                            Ok(cc)
                        }
                    },
                },
            },
        },
    }
}

/// Dividing a non-negative amount by a leverage of at least one never
/// increases it.
proof fn lemma_div_by_leverage(a: int, lev: int)
    requires
        a >= 0,
        lev >= scale(),
    ensures
        0 <= trunc_div(a, lev) <= a,
{
    assert(a * scale() / lev <= a) by (nonlinear_arith)
        requires
            a >= 0,
            lev >= scale(),
            scale() > 0,
    {
        assert(a * scale() <= a * lev);
    }
    assert(a * scale() / lev >= 0) by (nonlinear_arith)
        requires
            a >= 0,
            lev >= scale(),
            scale() > 0,
    ;
}

/// A counter collateral that a take profit price gives is strictly positive
/// and representable.
pub proof fn lemma_counter_collateral_positive(
    take_profit: TakeProfitTrader,
    leverage: int,
    direction: DirectionToBase,
    market_type: MarketType,
    price: PricePoint,
    collateral: int,
    max_leverage: int,
)
    requires
        price.wf(),
        max_leverage >= scale(),
        spec_counter_collateral(take_profit, leverage, direction, market_type, price, collateral, max_leverage) is Ok,
    ensures
        ({
            let cc = spec_counter_collateral(take_profit, leverage, direction, market_type, price, collateral, max_leverage)->Ok_0;
            cc > 0 && in_range(cc)
        }),
{
    let n = spec_notional_size(leverage, direction, market_type, price, collateral)->Some_0;
    let max_cc = price.spec_notional_to_collateral(abs(n))->Some_0;
    assert(max_cc >= 0) by (nonlinear_arith)
        requires
            max_cc == trunc_mul(abs(n), price.price_notional@),
            price.price_notional@ > 0,
            abs(n) >= 0,
    {
    }
    lemma_div_by_leverage(max_cc, max_leverage);
}

fn lift(o: Option<Number>) -> (r: Result<Number, PerpError>)
    ensures
        match o {
            Some(v) => r == Ok::<Number, PerpError>(v),
            None => r == Err::<Number, PerpError>(PerpError::Arithmetic),
        },
{
    match o {
        Some(v) => Ok(v),
        None => Err(PerpError::Arithmetic),
    }
}

/// Signed leverage to notional for a leverage to base and a direction.
pub fn leverage_to_notional(leverage: Number, direction: DirectionToBase, market_type: MarketType) -> (r: Option<Number>)
    ensures
        match spec_leverage_to_notional(leverage@, direction, market_type) {
            Some(v) => r matches Some(x) && x@ == v,
            None => r is None,
        },
{
    let signed = match direction {
        DirectionToBase::Long => leverage,
        DirectionToBase::Short => leverage.neg(),
    };
    match market_type {
        MarketType::CollateralIsQuote => Some(signed),
        MarketType::CollateralIsBase => Number::one().checked_sub(&signed),
    }
}

/// The notional size of a new position with `collateral` at `leverage` to
/// base in `direction`.
pub fn notional_size(
    leverage: Number,
    direction: DirectionToBase,
    market_type: MarketType,
    price: &PricePoint,
    collateral: Number,
) -> (r: Result<Number, PerpError>)
    requires
        price.wf(),
    ensures
        match spec_notional_size(leverage@, direction, market_type, *price, collateral@) {
            Some(v) => r matches Ok(x) && x@ == v,
            None => r == Err::<Number, PerpError>(PerpError::Arithmetic),
        },
{
    let l = lift(leverage_to_notional(leverage, direction, market_type))?;
    let in_collateral = lift(l.checked_mul(&collateral))?;
    lift(price.collateral_to_notional(&in_collateral))
}

/// The counter collateral that a take profit price asks for, before the
/// leverage limits apply.
fn requested_counter_collateral(
    take_profit: TakeProfitTrader,
    leverage: Number,
    direction: DirectionToBase,
    market_type: MarketType,
    price: &PricePoint,
    collateral: Number,
) -> (r: Result<Number, PerpError>)
    requires
        price.wf(),
    ensures
        match spec_requested_counter_collateral(take_profit, leverage@, direction, market_type, *price, collateral@) {
            Ok(v) => r matches Ok(x) && x@ == v,
            Err(e) => r == Err::<Number, PerpError>(e),
        },
{
    let notional = notional_size(leverage, direction, market_type, price, collateral)?;
    match take_profit {
        TakeProfitTrader::PosInfinity => {
            let l = lift(leverage_to_notional(leverage, direction, market_type))?;
            let in_collateral = lift(l.checked_mul(&collateral))?;
            match market_type {
                MarketType::CollateralIsQuote => Err(PerpError::InvalidInfiniteTakeProfitPrice { market_type, direction }),
                MarketType::CollateralIsBase => {
                    if l.is_positive_or_zero() {
                        Err(PerpError::InvalidInfiniteTakeProfitPrice { market_type, direction })
                    } else if in_collateral.is_zero() {
                        Err(PerpError::ZeroCounterCollateral)
                    } else {
                        Ok(in_collateral.abs())
                    }
                },
            }
        },
        TakeProfitTrader::Finite(tp) => {
            let tpn = lift(into_notional_price(&tp, market_type))?;
            let d = lift(tpn.checked_sub(&price.price_notional))?;
            let cc = lift(d.checked_mul(&notional))?;
            if cc.is_negative() {
                Err(PerpError::NegativeCounterCollateral)
            } else if cc.is_zero() {
                Err(PerpError::ZeroCounterCollateral)
            } else {
                Ok(cc)
            }
        },
    }
}

/// The counter collateral of a new position: what its take profit price
/// asks for, kept between the notional value over the maximum leverage and
/// the notional value itself.
pub fn take_profit_counter_collateral(
    take_profit: TakeProfitTrader,
    leverage: Number,
    direction: DirectionToBase,
    market_type: MarketType,
    price: &PricePoint,
    collateral: Number,
    max_leverage: Number,
) -> (r: Result<Number, PerpError>)
    requires
        price.wf(),
        max_leverage@ >= scale(),
    ensures
        match spec_counter_collateral(
            take_profit,
            leverage@,
            direction,
            market_type,
            *price,
            collateral@,
            max_leverage@,
        ) {
            Ok(v) => r matches Ok(x) && x@ == v,
            Err(e) => r == Err::<Number, PerpError>(e),
        },
        // The counter leverage stays between one and the maximum leverage.
        r matches Ok(cc) ==> cc@ > 0 && (spec_notional_size(leverage@, direction, market_type, *price, collateral@)
            matches Some(n) && (price.spec_notional_to_collateral(abs(n)) matches Some(max_cc) && cc@ <= max_cc
            && cc@ >= trunc_div(max_cc, max_leverage@))),
{
    let notional = notional_size(leverage, direction, market_type, price, collateral)?;
    let max_cc = lift(price.notional_to_collateral(&notional.abs()))?;
    let min_cc = lift(max_cc.checked_div(&max_leverage))?;
    proof {
        lemma_div_by_leverage(max_cc@, max_leverage@);
    }
    let requested = requested_counter_collateral(take_profit, leverage, direction, market_type, price, collateral)?;
    let cc = requested.max(&min_cc).min(&max_cc);
    if cc.is_zero() {
        return Err(PerpError::ZeroCounterCollateral);
    }
    Ok(cc)
}

} // verus!
