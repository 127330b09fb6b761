//! Positions: leverage, and the trade volume recorded for history.
use crate::error::PerpError;
use crate::number::{
    abs, checked, in_range, lemma_trunc_div_close, lemma_trunc_mul_close, odiv, omul, opt_view, scale, trunc_div,
    trunc_mul, Number,
};
use crate::price::{DirectionToBase, DirectionToNotional, MarketType, PricePoint};
use vstd::prelude::*;

verus! {

fn lift(o: Option<Number>) -> (r: Result<Number, PerpError>)
    ensures
        match o {
            Some(v) => r == Ok::<Number, PerpError>(v),
            None => r == Err::<Number, PerpError>(PerpError::Arithmetic),
        },
{
    match o {
        Some(v) => Ok(v),
        None => Err(PerpError::Arithmetic),
    }
}

/// Collateral set aside to pay each kind of fee before liquidation.
#[derive(Clone, Copy, Debug, PartialEq, Eq, Structural)]
pub struct LiquidationMargin {
    pub borrow: Number,
    pub funding: Number,
    pub delta_neutrality: Number,
    pub crank: Number,
}

/// A running total of fees, in collateral and in USD at the prices when
/// they were paid.
#[derive(Clone, Copy, Debug, PartialEq, Eq, Structural)]
pub struct FeeAccount {
    pub collateral: Number,
    pub usd: Number,
}

impl FeeAccount {
    /// Adds a payment of `amount` collateral, valued in USD at `price`.
    pub fn checked_add_assign(&mut self, amount: Number, price: &PricePoint) -> (r: Result<(), PerpError>)
        ensures
            match (checked(old(self).collateral@ + amount@), price.spec_collateral_to_usd(amount@)) {
                (Some(c), Some(u)) => match checked(old(self).usd@ + u) {
                    Some(v) => r is Ok && final(self).collateral@ == c && final(self).usd@ == v,
                    None => r == Err::<(), PerpError>(PerpError::Arithmetic) && *final(self) == *old(self),
                },
                _ => r == Err::<(), PerpError>(PerpError::Arithmetic) && *final(self) == *old(self),
            },
    {
        let collateral = lift(self.collateral.checked_add(&amount))?;
        let usd = lift(price.collateral_to_usd(&amount))?;
        let usd = lift(self.usd.checked_add(&usd))?;
        self.collateral = collateral;
        self.usd = usd;
        Ok(())
    }
}

/// The parts of an open position that the calculations read.
#[derive(Clone, Copy, Debug, PartialEq, Eq, Structural)]
pub struct Position {
    pub id: u64,
    /// Signed notional size: positive for long, negative for short.
    pub notional_size: Number,
    /// Collateral backing the position (strictly positive).
    pub active_collateral: Number,
    /// Collateral locked by liquidity providers for the position.
    pub counter_collateral: Number,
    pub liquidation_margin: LiquidationMargin,
    /// Borrow fees paid so far.
    pub borrow_fee: FeeAccount,
    /// Funding fees paid so far (negative when received).
    pub funding_fee: FeeAccount,
    /// Crank fees paid so far.
    pub crank_fee: FeeAccount,
}

/// The parts of a closed position that the trade history reads.
#[derive(Clone, Copy, Debug, PartialEq, Eq, Structural)]
pub struct ClosedPosition {
    pub notional_size: Number,
    pub active_collateral: Number,
    pub direction_to_base: DirectionToBase,
}

/// Leverage to notional: the notional size's value in collateral over the
/// active collateral.
pub open spec fn spec_leverage_to_notional(notional_size: int, price_notional: int, active_collateral: int) -> Option<int> {
    odiv(omul(Some(notional_size), Some(price_notional)), Some(active_collateral))
}

/// Leverage to base: the same as to notional when the quote is collateral;
/// one minus it when the base is, since collateral then is itself exposed
/// to the base asset.
pub open spec fn spec_leverage_to_base(leverage_to_notional: int, market_type: MarketType) -> Option<int> {
    match market_type {
        MarketType::CollateralIsQuote => Some(leverage_to_notional),
        MarketType::CollateralIsBase => checked(scale() - leverage_to_notional),
    }
}

impl Position {
    /// Long when the notional size is not negative.
    pub fn direction(&self) -> (r: DirectionToNotional)
        ensures
            r == (if self.notional_size@ >= 0 { DirectionToNotional::Long } else { DirectionToNotional::Short }),
    {
        if self.notional_size.is_positive_or_zero() {
            DirectionToNotional::Long
        } else {
            DirectionToNotional::Short
        }
    }

    /// The position's leverage to notional at the given price.
    pub fn active_leverage_to_notional(&self, price: &PricePoint) -> (r: Result<Number, PerpError>)
        ensures
            match spec_leverage_to_notional(self.notional_size@, price.price_notional@, self.active_collateral@) {
                Some(v) => r matches Ok(x) && x@ == v,
                None => r == Err::<Number, PerpError>(PerpError::Arithmetic),
            },
    {
        let in_collateral = lift(self.notional_size.checked_mul(&price.price_notional))?;
        lift(in_collateral.checked_div(&self.active_collateral))
    }
}

/// The position's leverage to base for a leverage to notional.
pub fn leverage_to_base(leverage_to_notional: Number, market_type: MarketType) -> (r: Result<Number, PerpError>)
    ensures
        match spec_leverage_to_base(leverage_to_notional@, market_type) {
            Some(v) => r matches Ok(x) && x@ == v,
            None => r == Err::<Number, PerpError>(PerpError::Arithmetic),
        },
{
    match market_type {
        MarketType::CollateralIsQuote => Ok(leverage_to_notional),
        MarketType::CollateralIsBase => lift(Number::one().checked_sub(&leverage_to_notional)),
    }
}

/// The trade volume of a position in USD, from its notional size and
/// active collateral.
pub open spec fn spec_trade_volume_usd(notional_size: int, active_collateral: int, price_point: PricePoint, market_type: MarketType) -> Option<int> {
    match spec_leverage_to_notional(notional_size, price_point.price_notional@, active_collateral) {
        None => None,
        Some(l) => match spec_leverage_to_base(l, market_type) {
            None => None,
            Some(b) => match checked(trunc_mul(active_collateral, abs(b))) {
                None => None,
                Some(c) => price_point.spec_collateral_to_usd(c),
            },
        },
    }
}

/// The trade volume of an open position in USD: its active collateral times
/// its absolute leverage to base, in USD at the given price. This is the
/// user-facing leverage, unlike the notional size.
pub fn trade_volume_usd(pos: &Position, price_point: &PricePoint, market_type: MarketType) -> (r: Result<Number, PerpError>)
    ensures
        match spec_trade_volume_usd(pos.notional_size@, pos.active_collateral@, *price_point, market_type) {
            Some(v) => r matches Ok(x) && x@ == v,
            None => r == Err::<Number, PerpError>(PerpError::Arithmetic),
        },
{
    let leverage = pos.active_leverage_to_notional(price_point)?;
    let leverage = leverage_to_base(leverage, market_type)?;
    let volume = lift(pos.active_collateral.checked_mul(&leverage.abs()))?;
    lift(price_point.collateral_to_usd(&volume))
}

/// The trade volume of a closed position in collateral: the notional
/// size's value in collateral, less it from the collateral when the base is
/// the collateral, in absolute value.
pub open spec fn spec_closed_volume(notional_size: int, active_collateral: int, price_point: PricePoint) -> Option<int> {
    match price_point.spec_notional_to_collateral(notional_size) {
        None => None,
        Some(n) => match price_point.market_type {
            MarketType::CollateralIsQuote => Some(abs(n)),
            MarketType::CollateralIsBase => match checked(active_collateral - n) {
                None => None,
                Some(v) => Some(abs(v)),
            },
        },
    }
}

/// The trade volume of a closed position in USD, the same as
/// [`trade_volume_usd`] on the position's data: its active collateral times
/// its absolute leverage to base. With the leverage to notional being the
/// notional size's value over the collateral, that is the notional size's
/// value in collateral, less it from the collateral when the base is the
/// collateral, in absolute value, in USD. Written without the division, it
/// also holds for a position closed with no collateral left.
pub fn trade_volume_usd_from_closed(pos: &ClosedPosition, price_point: &PricePoint) -> (r: Result<Number, PerpError>)
    requires
        price_point.wf(),
    ensures
        match spec_closed_volume(pos.notional_size@, pos.active_collateral@, *price_point) {
            None => r == Err::<Number, PerpError>(PerpError::Arithmetic),
            Some(v) => match price_point.spec_collateral_to_usd(v) {
                Some(u) => r matches Ok(x) && x@ == u,
                None => r == Err::<Number, PerpError>(PerpError::Arithmetic),
            },
        },
{
    let n = lift(price_point.notional_to_collateral(&pos.notional_size))?;
    let volume = match price_point.market_type {
        MarketType::CollateralIsQuote => n.abs(),
        MarketType::CollateralIsBase => lift(pos.active_collateral.checked_sub(&n))?.abs(),
    };
    lift(price_point.collateral_to_usd(&volume))
}

/// The two trade volumes agree up to rounding: for a position with
/// collateral left, the volume recorded from the closed position and the one
/// from the open position (at the same price, in its market type) differ by
/// less than `(collateral + one unit) * price_usd / scale()^2 + 2` atoms of
/// USD, the rounding of the leverage to notional, of the volume in
/// collateral and of the two USD conversions.
pub proof fn lemma_closed_volume_matches_open(notional_size: int, active_collateral: int, price_point: PricePoint)
    requires
        active_collateral > 0,
        price_point.price_usd@ > 0,
    ensures
        match (
            spec_trade_volume_usd(notional_size, active_collateral, price_point, price_point.market_type),
            spec_closed_volume(notional_size, active_collateral, price_point),
        ) {
            (Some(u1), Some(v2)) => match price_point.spec_collateral_to_usd(v2) {
                Some(u2) => abs(u1 - u2) * scale() * scale() < (active_collateral + scale()) * price_point.price_usd@ + 2
                    * scale() * scale(),
                None => true,
            },
            _ => true,
        },
{
    let sc = scale();
    let a = active_collateral;
    let p = price_point.price_usd@;
    if let (Some(u1), Some(v2)) = (
        spec_trade_volume_usd(notional_size, a, price_point, price_point.market_type),
        spec_closed_volume(notional_size, a, price_point),
    ) {
        if let Some(u2) = price_point.spec_collateral_to_usd(v2) {
            let n = trunc_mul(notional_size, price_point.price_notional@);
            let l = trunc_div(n, a);
            lemma_trunc_div_close(n, a);
            let b = match price_point.market_type {
                MarketType::CollateralIsQuote => l,
                MarketType::CollateralIsBase => sc - l,
            };
            let v1 = trunc_mul(a, abs(b));
            lemma_trunc_mul_close(a, abs(b));
            // The exact volume from the leverage is within `a` of the closed one.
            assert(a * abs(b) - sc * v2 < a && sc * v2 - a * abs(b) < a) by {
                match price_point.market_type {
                    MarketType::CollateralIsQuote => {
                        assert(v2 == abs(n));
                        assert(a * abs(l) - sc * abs(n) < a && sc * abs(n) - a * abs(l) < a) by (nonlinear_arith)
                            requires
                                a > 0,
                                n * sc - a < l * a < n * sc + a,
                                sc > 0,
                        ;
                    },
                    MarketType::CollateralIsBase => {
                        assert(v2 == abs(a - n));
                        assert(a * abs(sc - l) - sc * abs(a - n) < a && sc * abs(a - n) - a * abs(sc - l) < a)
                            by (nonlinear_arith)
                            requires
                                a > 0,
                                n * sc - a < l * a < n * sc + a,
                                sc > 0,
                        ;
                    },
                }
            }
            assert(u1 == trunc_mul(v1, p));
            lemma_trunc_mul_close(v1, p);
            lemma_trunc_mul_close(v2, p);
            let d = v1 - v2;
            assert(-(a + sc) < d * sc < a + sc);
            assert(-((a + sc) * p) < d * sc * p < (a + sc) * p) by (nonlinear_arith)
                requires
                    -(a + sc) < d * sc < a + sc,
                    p > 0,
            ;
            assert(d * sc * p == v1 * p * sc - v2 * p * sc) by (nonlinear_arith)
                requires
                    d == v1 - v2,
            ;
            assert(abs(u1 - u2) * sc * sc < (a + sc) * p + 2 * sc * sc) by (nonlinear_arith)
                requires
                    v1 * p - sc < u1 * sc < v1 * p + sc,
                    v2 * p - sc < u2 * sc < v2 * p + sc,
                    -((a + sc) * p) < v1 * p * sc - v2 * p * sc < (a + sc) * p,
                    sc > 0,
            ;
        }
    }
}

} // verus!
