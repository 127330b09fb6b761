//! Settling the fees a position owes for a stretch of time.
use crate::capping::{capped_amount_spec, is_capped_spec};
use crate::error::PerpError;
use crate::fees::{collect_borrow_fee, BorrowFeeCollection};
use crate::funding::{
    cap_crank_fee, calc_capped_borrow_fee_payment, calc_capped_funding_payment, CapCrankFee, FeeType,
    FundingFeePaymentWithCapping, FundingTotals, InsufficientMarginEvent, LpAndXlp,
};
use crate::number::{checked, in_range, odiv, omul, trunc_div, trunc_mul, Number};
use crate::position::FeeAccount;
use crate::position::Position;
use crate::price::{spec_into_base, DirectionToBase, DirectionToNotional, MarketType, PricePoint};
use vstd::prelude::*;

verus! {

/// A funding payment, as reported.
#[derive(Clone, Copy, Debug, PartialEq, Eq, Structural)]
pub struct FundingPaymentEvent {
    pub pos_id: u64,
    /// Positive: paid by the position.
    pub amount: Number,
    pub amount_usd: Number,
    pub direction: DirectionToBase,
}

/// A position after its fees are settled: still open, or liquidated
/// because its collateral could not cover them.
#[derive(Clone, Copy, Debug, PartialEq, Eq, Structural)]
pub enum MaybeClosedPosition {
    Open(Position),
    /// Closed at the settlement price, with no exposure to realize.
    Liquidated { pos: Position, settlement_price: PricePoint },
}

/// Everything settling a position's fees produces, before it is stored.
#[derive(Debug)]
pub struct PositionFeeSettlement {
    pub position: MaybeClosedPosition,
    pub insufficient_margin_events: Vec<InsufficientMarginEvent>,
    /// The borrow fee paid, after capping.
    pub borrow_fee_payment: LpAndXlp,
    pub funding_fee_payment: FundingFeePaymentWithCapping,
    pub borrow_fee_collection: BorrowFeeCollection,
    pub funding_payment_event: FundingPaymentEvent,
    pub cap_crank_fee: Option<CapCrankFee>,
}

/// A funding payment capped at the position's funding margin.
pub open spec fn spec_capped_funding(uncapped: int, cap: int) -> int {
    if uncapped > cap {
        cap
    } else {
        uncapped
    }
}

/// A funding payment after the protocol-level cap.
pub open spec fn spec_protocol_capped_funding(totals: FundingTotals, amount: int, pos_margin: int) -> int {
    if is_capped_spec(totals.total_net_funding_paid@, totals.total_funding_margin@, amount, pos_margin) {
        capped_amount_spec(totals.total_net_funding_paid@, totals.total_funding_margin@, amount, pos_margin)
    } else {
        amount
    }
}

/// The active collateral left to a position liquidated because it could
/// not pay its fees: 0.000000001, in atoms.
pub open spec fn dust_collateral() -> int {
    1_000_000_000
}

/// The crank fee charged, in collateral.
pub open spec fn spec_crank_amount(c: Option<CapCrankFee>) -> int {
    match c {
        Some(f) => f.amount@,
        None => 0,
    }
}

/// What the settlement takes out of the active collateral.
pub open spec fn spec_to_subtract(s: PositionFeeSettlement) -> int {
    s.borrow_fee_payment.lp@ + s.borrow_fee_payment.xlp@ + s.funding_fee_payment.amount@ + spec_crank_amount(
        s.cap_crank_fee,
    )
}

/// The position's fee accounts after the settlement `s`, against its state
/// before.
pub open spec fn fee_accounts_updated(before: Position, after: Position, s: PositionFeeSettlement, price: PricePoint) -> bool {
    let borrow = s.borrow_fee_payment.lp@ + s.borrow_fee_payment.xlp@;
    let funding = s.funding_fee_payment.amount@;
    let crank = spec_crank_amount(s.cap_crank_fee);
    &&& after.borrow_fee.collateral@ == before.borrow_fee.collateral@ + borrow
    &&& price.spec_collateral_to_usd(borrow) == Some(after.borrow_fee.usd@ - before.borrow_fee.usd@)
    &&& after.funding_fee.collateral@ == before.funding_fee.collateral@ + funding
    &&& price.spec_collateral_to_usd(funding) == Some(after.funding_fee.usd@ - before.funding_fee.usd@)
    &&& (s.cap_crank_fee is Some ==> after.crank_fee.collateral@ == before.crank_fee.collateral@ + crank
        && price.spec_collateral_to_usd(crank) == Some(after.crank_fee.usd@ - before.crank_fee.usd@))
    &&& (s.cap_crank_fee is None ==> after.crank_fee == before.crank_fee)
    &&& after.id == before.id
    &&& after.notional_size == before.notional_size
    &&& after.counter_collateral == before.counter_collateral
    &&& after.liquidation_margin == before.liquidation_margin
}

fn lift(o: Option<Number>) -> (r: Result<Number, PerpError>)
    ensures
        match o {
            Some(v) => r == Ok::<Number, PerpError>(v),
            None => r == Err::<Number, PerpError>(PerpError::Arithmetic),
        },
{
    match o {
        Some(v) => Ok(v),
        None => Err(PerpError::Arithmetic),
    }
}

/// The borrow fee paid after capping at `cap`: unchanged within the cap,
/// else the LP part scaled by the cap over the total and the xLP part the
/// rest of the cap.
pub open spec fn spec_capped_borrow(uncapped: LpAndXlp, cap: int) -> Option<(int, int)> {
    let total = uncapped.lp@ + uncapped.xlp@;
    if !in_range(total) {
        None
    } else if total == 0 || total <= cap {
        Some((uncapped.lp@, uncapped.xlp@))
    } else {
        match omul(Some(uncapped.lp@), odiv(Some(cap), Some(total))) {
            Some(l) => if cap - l >= 0 {
                Some((l, cap - l))
            } else {
                None
            },
            None => None,
        }
    }
}

/// Whether a payment of `amount` can be added to a fee account at `price`.
pub open spec fn account_fits(a: FeeAccount, amount: int, price: PricePoint) -> bool {
    &&& in_range(a.collateral@ + amount)
    &&& price.spec_collateral_to_usd(amount) matches Some(u) && in_range(a.usd@ + u)
}

/// The crank fee charged, in collateral, when it can be computed: the
/// charge converted from USD, capped at the margin for it; its USD value is
/// needed too when the cap applies.
pub open spec fn spec_crank_charge(price: PricePoint, charged_usd: int, cap: int) -> Option<int> {
    match price.spec_usd_to_collateral(charged_usd) {
        None => None,
        Some(c) => if c <= cap {
            Some(c)
        } else if price.spec_collateral_to_usd(cap) is Some {
            Some(cap)
        } else {
            None
        },
    }
}

/// When settling succeeds: the protocol's funding margin covers the
/// position's, and every amount computed along the way stays in range.
pub open spec fn spec_settlement_ok(
    position: Position,
    price: PricePoint,
    borrow_uncapped: LpAndXlp,
    funding_uncapped: int,
    totals: FundingTotals,
    protocol_tax: int,
    charge_crank_fee: bool,
    crank_fee_charged: int,
) -> bool {
    let m = position.liquidation_margin;
    let f = spec_protocol_capped_funding(totals, spec_capped_funding(funding_uncapped, m.funding@), m.funding@);
    match spec_capped_borrow(borrow_uncapped, m.borrow@) {
        None => false,
        Some((bl, bx)) => {
            let crank: Option<int> = if charge_crank_fee {
                spec_crank_charge(price, crank_fee_charged, m.crank@)
            } else {
                Some(0)
            };
            &&& totals.total_funding_margin@ >= m.funding@
            &&& in_range(totals.total_funding_margin@ - m.funding@ + totals.total_net_funding_paid@)
            &&& in_range(totals.total_net_funding_paid@ + f)
            &&& account_fits(position.funding_fee, f, price)
            &&& in_range(bl + bx)
            &&& account_fits(position.borrow_fee, bl + bx, price)
            &&& in_range(trunc_mul(bl, protocol_tax)) && in_range(trunc_mul(bx, protocol_tax))
            &&& bl - trunc_mul(bl, protocol_tax) >= 0 && bx - trunc_mul(bx, protocol_tax) >= 0
            &&& in_range(trunc_mul(bl, protocol_tax) + trunc_mul(bx, protocol_tax))
            &&& crank matches Some(c) && (charge_crank_fee ==> account_fits(position.crank_fee, c, price))
                && in_range(bl + bx + f) && in_range(bl + bx + f + c) && in_range(position.active_collateral@
                - (bl + bx + f + c))
        },
    }
}

/// Settles the fees a position owes for a stretch of time, given the
/// uncapped borrow fee and funding payment for it: each is capped at the
/// position's margin for it (and the funding payment also at the
/// protocol's totals), added to the position's fee accounts and the borrow
/// fee is split with the protocol; the crank fee is charged when asked.
/// Everything paid comes out of the active collateral; when that would
/// leave none, the position is liquidated instead, with a dust of
/// collateral left.
pub fn position_fee_settlement(
    position: Position,
    price: &PricePoint,
    market_type: MarketType,
    borrow_uncapped: LpAndXlp,
    funding_uncapped: Number,
    totals: &FundingTotals,
    protocol_tax: Number,
    charge_crank_fee: bool,
    crank_fee_charged: Number,
) -> (r: Result<PositionFeeSettlement, PerpError>)
    requires
        price.wf(),
        borrow_uncapped.lp@ >= 0,
        borrow_uncapped.xlp@ >= 0,
        position.liquidation_margin.borrow@ >= 0,
        position.liquidation_margin.funding@ >= 0,
        position.liquidation_margin.crank@ >= 0,
        totals.wf(),
        protocol_tax@ >= 0,
        crank_fee_charged@ >= 0,
    ensures
        r matches Err(e) ==> (e == PerpError::Arithmetic || e == PerpError::TotalMarginBelowPositionMargin),
        totals.total_funding_margin@ < position.liquidation_margin.funding@ ==> r is Err,
        spec_settlement_ok(
            position,
            *price,
            borrow_uncapped,
            funding_uncapped@,
            *totals,
            protocol_tax@,
            charge_crank_fee,
            crank_fee_charged@,
        ) <==> r is Ok,
        r matches Ok(s) ==> ({
            let m = position.liquidation_margin;
            let bt = borrow_uncapped.lp@ + borrow_uncapped.xlp@;
            let funding = spec_capped_funding(funding_uncapped@, m.funding@);
            let to_subtract = spec_to_subtract(s);
            let ev = s.insufficient_margin_events@;
            let nb: int = if bt > m.borrow@ { 1 } else { 0 };
            let nf: int = if funding_uncapped@ > m.funding@ { 1 } else { 0 };
            let no: int = if position.active_collateral@ - to_subtract <= 0 && to_subtract > 0 { 1 } else { 0 };
            &&& bt <= m.borrow@ ==> s.borrow_fee_payment == borrow_uncapped
            &&& bt > m.borrow@ ==> s.borrow_fee_payment.lp@ + s.borrow_fee_payment.xlp@ == m.borrow@
                && s.borrow_fee_payment.lp@ == trunc_mul(borrow_uncapped.lp@, trunc_div(m.borrow@, bt))
            &&& s.funding_fee_payment.amount@ == spec_protocol_capped_funding(*totals, funding, m.funding@)
            &&& s.funding_fee_payment.total_net_funding_paid@ == totals.total_net_funding_paid@
                + s.funding_fee_payment.amount@
            &&& s.borrow_fee_collection.lp_amount@ + s.borrow_fee_collection.xlp_amount@
                + s.borrow_fee_collection.protocol_amount@ == s.borrow_fee_payment.lp@ + s.borrow_fee_payment.xlp@
            &&& s.borrow_fee_collection.lp_amount@ == s.borrow_fee_payment.lp@ - trunc_mul(
                s.borrow_fee_payment.lp@,
                protocol_tax@,
            )
            &&& s.borrow_fee_collection.xlp_amount@ == s.borrow_fee_payment.xlp@ - trunc_mul(
                s.borrow_fee_payment.xlp@,
                protocol_tax@,
            )
            &&& s.borrow_fee_collection.protocol_amount@ == trunc_mul(s.borrow_fee_payment.lp@, protocol_tax@)
                + trunc_mul(s.borrow_fee_payment.xlp@, protocol_tax@)
            &&& spec_capped_borrow(borrow_uncapped, m.borrow@) == Some(
                (s.borrow_fee_payment.lp@, s.borrow_fee_payment.xlp@),
            )
            &&& charge_crank_fee ==> (s.cap_crank_fee matches Some(c) && Some(c.amount@) == (match price.spec_usd_to_collateral(crank_fee_charged@) {
                Some(u) => Some(if u <= m.crank@ { u } else { m.crank@ }),
                None => None,
            }))
            &&& !charge_crank_fee ==> s.cap_crank_fee is None
            &&& s.funding_payment_event.pos_id == position.id
            &&& s.funding_payment_event.amount == s.funding_fee_payment.amount
            &&& price.spec_collateral_to_usd(s.funding_fee_payment.amount@) == Some(s.funding_payment_event.amount_usd@)
            &&& s.funding_payment_event.direction == spec_into_base(
                if position.notional_size@ >= 0 { DirectionToNotional::Long } else { DirectionToNotional::Short },
                market_type,
            )
            &&& match s.position {
                MaybeClosedPosition::Open(p) => position.active_collateral@ - to_subtract > 0
                    && p.active_collateral@ == position.active_collateral@ - to_subtract
                    && fee_accounts_updated(position, p, s, *price),
                MaybeClosedPosition::Liquidated { pos, settlement_price } => position.active_collateral@
                    - to_subtract <= 0 && pos.active_collateral@ == dust_collateral() && settlement_price == *price
                    && fee_accounts_updated(position, pos, s, *price),
            }
            // No fee takes more than the margin set aside for it.
            &&& s.borrow_fee_payment.lp@ + s.borrow_fee_payment.xlp@ <= m.borrow@
            &&& s.funding_fee_payment.amount@ <= m.funding@
            &&& spec_crank_amount(s.cap_crank_fee) <= m.crank@
            &&& ev.len() == nb + nf + no
            &&& nb == 1 ==> ev[0].fee_type == FeeType::Borrow && ev[0].available == m.borrow && ev[0].requested@ == bt
            &&& nf == 1 ==> ev[nb].fee_type == FeeType::Funding && ev[nb].available == m.funding
                && ev[nb].requested == funding_uncapped
            &&& no == 1 ==> ev[nb + nf].fee_type == FeeType::Overall && ev[nb + nf].available
                == position.active_collateral && ev[nb + nf].requested@ == to_subtract
            &&& forall|i: int| 0 <= i < ev.len() ==> #[trigger] ev[i].pos == position.id && ev[i].desc is None
            &&& s.funding_fee_payment.insufficient_margin_event matches Some(e) ==> e.pos == position.id
                && e.fee_type == FeeType::FundingTotal
            &&& s.cap_crank_fee matches Some(c) ==> (c.insufficient_margin_event matches Some(e) ==> e.pos == position.id
                && e.fee_type == FeeType::Crank)
        }),
{
    let mut position = position;
    let m = position.liquidation_margin;
    let mut events: Vec<InsufficientMarginEvent> = Vec::new();
    let (borrow, borrow_event) = calc_capped_borrow_fee_payment(position.id, borrow_uncapped, m.borrow)?;
    if let Some(e) = borrow_event {
        events.push(e);
    }
    let (funding, funding_event) = calc_capped_funding_payment(position.id, funding_uncapped, m.funding);
    if let Some(e) = funding_event {
        events.push(e);
    }
    let funding_fee_payment = totals.track_funding_fee_payment_with_capping(position.id, funding, m.funding)?;
    position.funding_fee.checked_add_assign(funding_fee_payment.amount, price)?;
    let borrow_total = lift(borrow.lp.checked_add(&borrow.xlp))?;
    position.borrow_fee.checked_add_assign(borrow_total, price)?;
    let borrow_fee_collection = collect_borrow_fee(borrow, protocol_tax)?;
    let amount_usd = lift(price.collateral_to_usd(&funding_fee_payment.amount))?;
    let funding_payment_event = FundingPaymentEvent {
        pos_id: position.id,
        amount: funding_fee_payment.amount,
        amount_usd,
        direction: position.direction().into_base(market_type),
    };
    let crank = if charge_crank_fee {
        let c = cap_crank_fee(position.id, price, crank_fee_charged, m.crank)?;
        position.crank_fee.checked_add_assign(c.amount, price)?;
        Some(c)
    } else {
        None
    };
    let crank_amount = match &crank {
        Some(c) => c.amount,
        None => Number::zero(),
    };
    let to_subtract = lift(borrow_total.checked_add(&funding_fee_payment.amount))?;
    let to_subtract = lift(to_subtract.checked_add(&crank_amount))?;
    let remaining = lift(position.active_collateral.checked_sub(&to_subtract))?;
    let maybe_closed = if remaining.is_strictly_positive() {
        position.active_collateral = remaining;
        MaybeClosedPosition::Open(position)
    } else {
        if to_subtract.is_strictly_positive() {
            events.push(
                InsufficientMarginEvent {
                    pos: position.id,
                    fee_type: FeeType::Overall,
                    available: position.active_collateral,
                    requested: to_subtract,
                    desc: None,
                },
            );
        }
        position.active_collateral = match Number::from_atoms(1_000_000_000) {
            Some(d) => d,
            None => return Err(PerpError::Arithmetic),
        };
        MaybeClosedPosition::Liquidated { pos: position, settlement_price: *price }
    };
    Ok(
        PositionFeeSettlement {
            position: maybe_closed,
            insufficient_margin_events: events,
            borrow_fee_payment: borrow,
            funding_fee_payment,
            borrow_fee_collection,
            funding_payment_event,
            cap_crank_fee: crank,
        },
    )
}

} // verus!
