//! The market figures that a status report computes.
use crate::crank::CrankWorkInfo;
use crate::deferred::DeferredExecStatus;
use crate::error::PerpError;
use crate::number::{checked, trunc_div, Number};
use crate::price::{MarketType, PricePoint};
use vstd::prelude::*;

verus! {

/// Funding rates, open interest and its value, in the user's terms.
#[derive(Clone, Copy, Debug, PartialEq, Eq, Structural)]
pub struct StatusFigures {
    /// Annualized funding rate of longs, by direction to base.
    pub long_funding: Number,
    pub short_funding: Number,
    /// Open interest of longs, by direction to base, in notional.
    pub long_notional: Number,
    pub short_notional: Number,
    pub long_usd: Number,
    pub short_usd: Number,
    /// The price the values are taken at, when one is known.
    pub price: Option<PricePoint>,
    /// Net notional over the delta neutrality fee sensitivity.
    pub instant_delta_neutrality_fee_value: Number,
}

/// Swaps a long and short pair when the base is the collateral: the
/// protocol's directions are to notional, the user's to base.
pub open spec fn spec_to_base_pair(market_type: MarketType, long: Number, short: Number) -> (Number, Number) {
    match market_type {
        MarketType::CollateralIsQuote => (long, short),
        MarketType::CollateralIsBase => (short, long),
    }
}

fn to_base_pair(market_type: MarketType, long: Number, short: Number) -> (r: (Number, Number))
    ensures
        r == spec_to_base_pair(market_type, long, short),
{
    match market_type {
        MarketType::CollateralIsQuote => (long, short),
        MarketType::CollateralIsBase => (short, long),
    }
}

fn lift(o: Option<Number>) -> (r: Result<Number, PerpError>)
    ensures
        match o {
            Some(v) => r == Ok::<Number, PerpError>(v),
            None => r == Err::<Number, PerpError>(PerpError::Arithmetic),
        },
{
    match o {
        Some(v) => Ok(v),
        None => Err(PerpError::Arithmetic),
    }
}

/// The figures of a status report, from the funding rates and open
/// interest by direction to notional: both are given by direction to base;
/// the interest is valued in USD at the current price, which is needed only
/// when some interest is open; the instant delta neutrality value is the
/// net notional (long less short) over the sensitivity.
pub fn status_figures(
    market_type: MarketType,
    long_funding_notional: Number,
    short_funding_notional: Number,
    long_interest: Number,
    short_interest: Number,
    price: Option<PricePoint>,
    delta_neutrality_fee_sensitivity: Number,
) -> (r: Result<StatusFigures, PerpError>)
    ensures
        ({
            let (lf, sf) = spec_to_base_pair(market_type, long_funding_notional, short_funding_notional);
            let (ln, sn) = spec_to_base_pair(market_type, long_interest, short_interest);
            let no_interest = ln@ == 0 && sn@ == 0;
            let values = if no_interest {
                Some((0int, 0int))
            } else {
                match price {
                    None => None,
                    Some(p) => match (p.spec_notional_to_usd(ln@), p.spec_notional_to_usd(sn@)) {
                        (Some(lu), Some(su)) => Some((lu, su)),
                        _ => None,
                    },
                }
            };
            let instant = if delta_neutrality_fee_sensitivity@ == 0 {
                None
            } else {
                match checked(ln@ - sn@) {
                    None => None,
                    Some(net) => checked(trunc_div(net, delta_neutrality_fee_sensitivity@)),
                }
            };
            if !no_interest && price is None {
                r == Err::<StatusFigures, PerpError>(PerpError::MissingSpotPrice)
            } else if values is None || instant is None {
                r == Err::<StatusFigures, PerpError>(PerpError::Arithmetic)
            } else {
                r matches Ok(s) && s.long_funding == lf && s.short_funding == sf && s.long_notional == ln
                    && s.short_notional == sn && s.long_usd@ == values->Some_0.0 && s.short_usd@ == values->Some_0.1
                    && s.price == price && s.instant_delta_neutrality_fee_value@ == instant->Some_0
            }
        }),
{
    let (long_funding, short_funding) = to_base_pair(market_type, long_funding_notional, short_funding_notional);
    let (long_notional, short_notional) = to_base_pair(market_type, long_interest, short_interest);
    let (long_usd, short_usd) = if long_notional.is_zero() && short_notional.is_zero() {
        (Number::zero(), Number::zero())
    } else {
        match &price {
            None => return Err(PerpError::MissingSpotPrice),
            Some(p) => (lift(p.notional_to_usd(&long_notional))?, lift(p.notional_to_usd(&short_notional))?),
        }
    };
    let net = lift(long_notional.checked_sub(&short_notional))?;
    let instant_delta_neutrality_fee_value = lift(net.checked_div(&delta_neutrality_fee_sensitivity))?;
    Ok(
        StatusFigures {
            long_funding,
            short_funding,
            long_notional,
            short_notional,
            long_usd,
            short_usd,
            price,
            instant_delta_neutrality_fee_value,
        },
    )
}

/// The crank work a status report shows for the price point the crank is
/// on (published at `crank_timestamp`): none once that point is the current
/// one (`current_timestamp`) and its work is completed, otherwise the work.
pub fn next_crank_work(work: CrankWorkInfo, crank_timestamp: u64, current_timestamp: u64) -> (r: Option<CrankWorkInfo>)
    ensures
        r == (if work is Completed && current_timestamp == crank_timestamp {
            None::<CrankWorkInfo>
        } else {
            Some(work)
        }),
{
    match work {
        CrankWorkInfo::Completed => {
            if current_timestamp == crank_timestamp {
                None
            } else {
                Some(work)
            }
        },
        _ => Some(work),
    }
}

/// The creation time a status report shows for the newest queued request:
/// its time while it is still pending, nothing once it has run.
pub fn newest_deferred_execution(status: DeferredExecStatus, created: u64) -> (r: Option<u64>)
    ensures
        r == (if status is Pending {
            Some(created)
        } else {
            None::<u64>
        }),
{
    match status {
        DeferredExecStatus::Pending => Some(created),
        DeferredExecStatus::Success { .. } | DeferredExecStatus::Failure { .. } => None,
    }
}

} // verus!
