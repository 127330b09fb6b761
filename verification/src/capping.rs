//! Capping of funding payments against protocol-wide totals.
use crate::error::PerpError;
use crate::number::{in_range, max_int, min_int, Number};
use vstd::prelude::*;

verus! {

/// Outcome of [`aggregate_capping`].
#[derive(Clone, Copy, Debug, PartialEq, Eq, Structural)]
pub enum AggregateCapping {
    /// No capping occurred: the position pays (positive) or receives
    /// (negative) the requested amount.
    NoCapping,
    /// The amount paid is capped to this value.
    Capped { capped_amount: Number },
}

/// Margin available for an outgoing payment, negated so that a negative
/// value means "can pay out to the trader" (atoms).
pub open spec fn negated_available_margin(total_paid: int, total_margin: int, pos_margin: int) -> int {
    -(total_margin - pos_margin + total_paid)
}

/// The capped amount: first no lower than the negated available margin,
/// then no higher than the position's margin.
pub open spec fn capped_amount_spec(total_paid: int, total_margin: int, amount: int, pos_margin: int) -> int {
    min_int(max_int(amount, negated_available_margin(total_paid, total_margin, pos_margin)), pos_margin)
}

/// Whether either cap changes the requested amount's treatment.
pub open spec fn is_capped_spec(total_paid: int, total_margin: int, amount: int, pos_margin: int) -> bool {
    let avail = negated_available_margin(total_paid, total_margin, pos_margin);
    amount < avail || max_int(amount, avail) > pos_margin
}

/// The amount that is actually paid after [`aggregate_capping`].
pub open spec fn effective_payment(r: AggregateCapping, amount: int) -> int {
    match r {
        AggregateCapping::NoCapping => amount,
        AggregateCapping::Capped { capped_amount } => capped_amount@,
    }
}

/// Caps a funding payment (`amount`, positive when the position pays) based
/// on the protocol's net funding paid so far, the total funding margin and
/// the position's own funding margin.
///
/// The payment is first raised to at least minus the margin available
/// without this position (so the protocol never pays out more than it
/// holds), then lowered to at most the position's margin (the most a
/// position can pay in).
pub fn aggregate_capping(
    total_paid: Number,
    total_margin: Number,
    amount: Number,
    pos_margin: Number,
) -> (r: Result<AggregateCapping, PerpError>)
    requires
        total_margin@ >= 0,
        pos_margin@ >= 0,
    ensures
        total_margin@ < pos_margin@ <==> r == Err::<AggregateCapping, PerpError>(
            PerpError::TotalMarginBelowPositionMargin,
        ),
        r == Err::<AggregateCapping, PerpError>(PerpError::Arithmetic) <==> (total_margin@
            >= pos_margin@ && !in_range(total_margin@ - pos_margin@ + total_paid@)),
        r is Ok <==> total_margin@ >= pos_margin@ && in_range(total_margin@ - pos_margin@ + total_paid@),
        r matches Ok(c) ==> (c is Capped <==> is_capped_spec(total_paid@, total_margin@, amount@, pos_margin@)),
        r matches Ok(AggregateCapping::Capped { capped_amount }) ==> capped_amount@ == capped_amount_spec(
            total_paid@,
            total_margin@,
            amount@,
            pos_margin@,
        ),
        // Never more than the position's margin is paid in, and the payment
        // never leaves the protocol's funding totals negative unless the
        // position's whole margin is taken.
        r matches Ok(c) ==> effective_payment(c, amount@) <= pos_margin@,
        r matches Ok(c) ==> (total_margin@ - pos_margin@ + total_paid@ + effective_payment(c, amount@)
            >= 0 || effective_payment(c, amount@) == pos_margin@),
{
    total_margin.range_fact();
    pos_margin.range_fact();
    let total_margin_without_pos = match total_margin.checked_sub(&pos_margin) {
        Some(x) => x,
        None => return Err(PerpError::TotalMarginBelowPositionMargin),
    };
    if total_margin_without_pos.is_negative() {
        return Err(PerpError::TotalMarginBelowPositionMargin);
    }
    let available_margin = match total_margin_without_pos.checked_add(&total_paid) {
        Some(x) => x,
        None => return Err(PerpError::Arithmetic),
    };
    let available_margin = available_margin.neg();

    let mut is_capped = false;
    let capped_amount = if amount.lt(&available_margin) {
        is_capped = true;
        available_margin
    } else {
        amount
    };

    let capped_amount = if pos_margin.lt(&capped_amount) {
        is_capped = true;
        pos_margin
    } else {
        capped_amount
    };

    Ok(
        if is_capped {
            AggregateCapping::Capped { capped_amount }
        } else {
            AggregateCapping::NoCapping
        },
    )
}

} // verus!
