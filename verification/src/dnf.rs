//! Delta neutrality fees: the fee for moving the market's net notional, the
//! fund that pays traders who rebalance it, and the caps on net open
//! interest.
use crate::error::PerpError;
use crate::number::{
    abs, checked, in_range, max_int, min_int, number_of, oadd, odiv, omax, omin, omul, opt_view, osub, scale,
    lemma_trunc_div_close, lemma_trunc_mul_close, trunc_div, trunc_mul, Number,
};
use crate::price::{DirectionToBase, DirectionToNotional, MarketType, PricePoint, spec_into_base};
use vstd::prelude::*;

verus! {

broadcast use crate::number::group_number_of;

/// The fee, in notional, for moving the net notional from `net_notional` by
/// `delta_notional` (all atom counts): the integral of the instantaneous
/// delta neutrality ratio `clamp(x / sensitivity, -cap, cap)` along the way.
/// It is the formula of [`spec_dnf_exact_2s`] divided by `2 * sensitivity`,
/// each product and quotient taken as an eighteen-decimal operation that
/// truncates toward zero, and `None` where a step leaves the number range;
/// the exact formula is the one whose path independence is proved.
pub open spec fn spec_dnf_amount(cap: int, sensitivity: int, net_notional: int, delta_notional: int) -> Option<int> {
    let low = omul(Some(-cap), Some(sensitivity));
    let high = omul(Some(cap), Some(sensitivity));
    let after = oadd(Some(net_notional), Some(delta_notional));
    let d_low = osub(omin(after, low), omin(Some(net_notional), low));
    let d_high = osub(omax(after, high), omax(Some(net_notional), high));
    let d_uncapped = osub(osub(Some(delta_notional), d_low), d_high);
    let fee_low = omul(d_low, Some(-cap));
    let fee_high = oadd(fee_low, omul(d_high, Some(cap)));
    let clamped = omax(omin(Some(net_notional), high), low);
    let numerator = oadd(
        omul(d_uncapped, d_uncapped),
        omul(omul(Some(2 * scale()), d_uncapped), clamped),
    );
    oadd(fee_high, odiv(numerator, omul(Some(2 * scale()), Some(sensitivity))))
}

fn lift(o: Option<Number>) -> (r: Result<Number, PerpError>)
    ensures
        match o {
            Some(v) => r == Ok::<Number, PerpError>(v),
            None => r == Err::<Number, PerpError>(PerpError::Arithmetic),
        },
{
    match o {
        Some(v) => Ok(v),
        None => Err(PerpError::Arithmetic),
    }
}

/// Computes the delta neutrality fee, in notional, for changing the net
/// notional `net_notional` by `delta_notional`. Positive fees are paid by
/// the trader; negative fees are paid to the trader.
pub fn calculate_delta_neutrality_fee_amount(
    cap: Number,
    sensitivity: Number,
    net_notional: Number,
    delta_notional: Number,
) -> (r: Result<Number, PerpError>)
    ensures
        match spec_dnf_amount(cap@, sensitivity@, net_notional@, delta_notional@) {
            Some(v) => r matches Ok(x) && x@ == v,
            None => r == Err::<Number, PerpError>(PerpError::Arithmetic),
        },
{
    let neg_cap = cap.neg();
    let low = lift(neg_cap.checked_mul(&sensitivity))?;
    let high = lift(cap.checked_mul(&sensitivity))?;
    let after = lift(net_notional.checked_add(&delta_notional))?;
    let d_low = lift(after.min(&low).checked_sub(&net_notional.min(&low)))?;
    let d_high = lift(after.max(&high).checked_sub(&net_notional.max(&high)))?;
    let d_uncapped = lift(lift(delta_notional.checked_sub(&d_low))?.checked_sub(&d_high))?;
    let fee_low = lift(d_low.checked_mul(&neg_cap))?;
    let fee_high = lift(fee_low.checked_add(&lift(d_high.checked_mul(&cap))?))?;
    let clamped = net_notional.min(&high).max(&low);
    let square = lift(d_uncapped.checked_mul(&d_uncapped))?;
    let twice = lift(Number::two().checked_mul(&d_uncapped))?;
    let cross = lift(twice.checked_mul(&clamped))?;
    let numerator = lift(square.checked_add(&cross))?;
    let denominator = lift(Number::two().checked_mul(&sensitivity))?;
    let quotient = lift(numerator.checked_div(&denominator))?;
    lift(fee_high.checked_add(&quotient))
}


/// Information kept when the liquidation margin caps a delta neutrality fee.
#[derive(Clone, Copy, Debug, PartialEq, Eq, Structural)]
pub struct CapTriggeredInfo {
    /// The margin available, which is what gets charged.
    pub available: Number,
    /// The fee that was requested.
    pub requested: Number,
}

/// Magnitude, in atoms, below which a value counts as approximately zero
/// (`0.0000001`).
pub open spec fn eps_e7() -> int {
    100_000_000_000
}

pub open spec fn approx_zero(x: int) -> bool {
    abs(x) < eps_e7()
}

/// Whether the value is within `0.0000001` of zero.
pub fn is_approx_zero(x: &Number) -> (r: bool)
    ensures
        r == approx_zero(x@),
{
    let eps = Number::from_atoms(100_000_000_000i128).unwrap();
    x.abs().lt(&eps)
}

/// The fields that one pass changes: fees so far, net notional, and the
/// cap information.
pub type PassState = (int, int, Option<(int, int)>);

/// One pass of the delta neutrality fee calculation over `delta` (atoms).
///
/// The fee in notional is converted to collateral. A payment to the trader
/// is scaled by how well the fund covers a full rebalancing of the net
/// notional (a ratio capped at one) and never exceeds the fund; a payment by
/// the trader is capped by the liquidation margin factor, recording the cap.
pub open spec fn spec_update_inner(
    cap: int,
    sensitivity: int,
    price: PricePoint,
    fund_before: int,
    liquidation_margin_factor: Option<int>,
    state: PassState,
    delta: int,
) -> Option<PassState> {
    let (fees, net, triggered) = state;
    let fund = fund_before + fees;
    if !(0 <= fund && in_range(fund)) {
        None
    } else {
        match spec_dnf_amount(cap, sensitivity, net, delta) {
            None => None,
            Some(amount) => match price.spec_notional_to_collateral(amount) {
                None => None,
                Some(amount_collateral) => {
                    let paid_out: Option<int> = if amount_collateral < 0 {
                        match spec_dnf_amount(cap, sensitivity, net, -net) {
                            None => None,
                            Some(balance) => match price.spec_notional_to_collateral(abs(balance)) {
                                None => None,
                                Some(balance_collateral) => {
                                    let ratio: Option<int> = if balance_collateral != 0 && !approx_zero(
                                        balance_collateral,
                                    ) {
                                        checked(trunc_div(fund, balance_collateral))
                                    } else {
                                        Some(scale())
                                    };
                                    match ratio {
                                        None => None,
                                        Some(ratio) => match checked(
                                            trunc_mul(amount_collateral, min_int(ratio, scale())),
                                        ) {
                                            None => None,
                                            Some(n) => Some(
                                                if -n > fund {
                                                    -fund
                                                } else {
                                                    n
                                                },
                                            ),
                                        },
                                    }
                                },
                            },
                        }
                    } else {
                        Some(amount_collateral)
                    };
                    match paid_out {
                        None => None,
                        Some(amt) => {
                            let (charged, triggered2) = match liquidation_margin_factor {
                                Some(c) => if amt > 0 && amt > c {
                                    (c, Some((c, amt)))
                                } else {
                                    (amt, triggered)
                                },
                                None => (amt, triggered),
                            };
                            match (checked(fees + charged), checked(net + delta)) {
                                (Some(f), Some(n)) => Some((f, n, triggered2)),
                                _ => None,
                            }
                        },
                    }
                },
            },
        }
    }
}

/// The whole calculation: when the trade crosses zero net notional, the
/// part back to zero and the part beyond it are charged as two passes.
pub open spec fn spec_run(
    cap: int,
    sensitivity: int,
    price: PricePoint,
    fund_before: int,
    liquidation_margin_factor: Option<int>,
    state: PassState,
    delta: int,
) -> Option<PassState> {
    let net = state.1;
    match checked(net + delta) {
        None => None,
        Some(after) => match checked(trunc_mul(net, after)) {
            None => None,
            Some(product) => if product < 0 {
                match spec_update_inner(cap, sensitivity, price, fund_before, liquidation_margin_factor, state, -net) {
                    None => None,
                    Some(s1) => match checked(delta + net) {
                        None => None,
                        Some(rest) => spec_update_inner(
                            cap,
                            sensitivity,
                            price,
                            fund_before,
                            liquidation_margin_factor,
                            s1,
                            rest,
                        ),
                    },
                }
            } else {
                spec_update_inner(cap, sensitivity, price, fund_before, liquidation_margin_factor, state, delta)
            },
        },
    }
}

pub open spec fn opt_cap_view(o: Option<CapTriggeredInfo>) -> Option<(int, int)> {
    match o {
        Some(c) => Some((c.available@, c.requested@)),
        None => None,
    }
}

/// The cap information with the given amounts.
pub open spec fn cap_info_of(o: Option<(int, int)>) -> Option<CapTriggeredInfo> {
    match o {
        Some((available, requested)) => Some(CapTriggeredInfo { available: number_of(available), requested: number_of(requested) }),
        None => None,
    }
}

/// Cap information is determined by its amounts.
pub broadcast proof fn lemma_cap_info_of_view(o: Option<CapTriggeredInfo>)
    ensures
        #[trigger] cap_info_of(opt_cap_view(o)) == o,
{
    broadcast use crate::number::group_number_of;

}

pub open spec fn opt_number_view(o: Option<Number>) -> Option<int> {
    opt_view(o)
}

/// The delta neutrality fee calculation, which may take two passes.
#[derive(Clone, Copy, Debug)]
pub struct DeltaNeutralityFeeMultiPass {
    /// Fees so far, in collateral (positive: paid by the trader).
    pub fees: Number,
    /// Collateral in the delta neutrality fund before the calculation.
    pub total_in_fund_before_calc: Number,
    pub cap: Number,
    pub sensitivity: Number,
    /// Net notional of the market, updated by each pass.
    pub net_notional: Number,
    /// The change of net notional being charged.
    pub delta_notional: Number,
    pub price: PricePoint,
    /// Cap on what a position pays, when closing or updating.
    pub liquidation_margin_factor: Option<Number>,
    pub cap_triggered_info: Option<CapTriggeredInfo>,
}

impl DeltaNeutralityFeeMultiPass {
    pub open spec fn pass_state(&self) -> PassState {
        (self.fees@, self.net_notional@, opt_cap_view(self.cap_triggered_info))
    }

    /// Starts a calculation with no fees charged yet.
    pub fn new(
        cap: Number,
        sensitivity: Number,
        net_notional: Number,
        delta_notional: Number,
        price: PricePoint,
        liquidation_margin_factor: Option<Number>,
        total_in_fund_before_calc: Number,
    ) -> (r: DeltaNeutralityFeeMultiPass)
        ensures
            r.fees@ == 0,
            r.cap == cap,
            r.sensitivity == sensitivity,
            r.net_notional == net_notional,
            r.delta_notional == delta_notional,
            r.price == price,
            r.liquidation_margin_factor == liquidation_margin_factor,
            r.total_in_fund_before_calc == total_in_fund_before_calc,
            r.cap_triggered_info is None,
    {
        DeltaNeutralityFeeMultiPass {
            fees: Number::zero(),
            total_in_fund_before_calc,
            cap,
            sensitivity,
            net_notional,
            delta_notional,
            price,
            liquidation_margin_factor,
            cap_triggered_info: None,
        }
    }

    #[verifier::rlimit(80)]
    fn update_inner(&mut self, delta: Number) -> (r: Result<(), PerpError>)
        requires
            old(self).price.wf(),
        ensures
            final(self).price == old(self).price,
            final(self).cap == old(self).cap,
            final(self).sensitivity == old(self).sensitivity,
            final(self).delta_notional == old(self).delta_notional,
            final(self).total_in_fund_before_calc == old(self).total_in_fund_before_calc,
            final(self).liquidation_margin_factor == old(self).liquidation_margin_factor,
            match spec_update_inner(
                old(self).cap@,
                old(self).sensitivity@,
                old(self).price,
                old(self).total_in_fund_before_calc@,
                opt_view(old(self).liquidation_margin_factor),
                old(self).pass_state(),
                delta@,
            ) {
                Some(s) => r is Ok && final(self).pass_state() == s,
                None => r == Err::<(), PerpError>(PerpError::Arithmetic),
            },
    {
        let fund = lift(self.total_in_fund_before_calc.checked_add(&self.fees))?;
        if fund.is_negative() {
            return Err(PerpError::Arithmetic);
        }
        let amount = calculate_delta_neutrality_fee_amount(self.cap, self.sensitivity, self.net_notional, delta)?;
        let mut amount_collateral = lift(self.price.notional_to_collateral(&amount))?;
        if amount_collateral.is_negative() {
            let balance = calculate_delta_neutrality_fee_amount(
                self.cap,
                self.sensitivity,
                self.net_notional,
                self.net_notional.neg(),
            )?;
            let balance_collateral = lift(self.price.notional_to_collateral(&balance.abs()))?;
            let ratio = if !balance_collateral.is_zero() && !is_approx_zero(&balance_collateral) {
                lift(fund.checked_div(&balance_collateral))?
            } else {
                Number::one()
            };
            let ratio = ratio.min(&Number::one());
            let n = lift(amount_collateral.checked_mul(&ratio))?;
            amount_collateral = if fund.lt(&n.neg()) {
                fund.neg()
            } else {
                n
            };
        }
        let charged = match self.liquidation_margin_factor {
            Some(c) => {
                if amount_collateral.is_strictly_positive() && c.lt(&amount_collateral) {
                    self.cap_triggered_info = Some(
                        CapTriggeredInfo { available: c, requested: amount_collateral },
                    );
                    c
                } else {
                    amount_collateral
                }
            },
            None => amount_collateral,
        };
        let fees = self.fees.checked_add(&charged);
        let net = self.net_notional.checked_add(&delta);
        match (fees, net) {
            (Some(f), Some(n)) => {
                self.fees = f;
                self.net_notional = n;
                Ok(())
            },
            _ => Err(PerpError::Arithmetic),
        }
    }

    /// Runs the calculation, charging across zero net notional in two
    /// passes.
    pub fn run(&mut self) -> (r: Result<(), PerpError>)
        requires
            old(self).price.wf(),
        ensures
            final(self).price == old(self).price,
            final(self).cap == old(self).cap,
            final(self).sensitivity == old(self).sensitivity,
            final(self).delta_notional == old(self).delta_notional,
            final(self).total_in_fund_before_calc == old(self).total_in_fund_before_calc,
            final(self).liquidation_margin_factor == old(self).liquidation_margin_factor,
            match spec_run(
                old(self).cap@,
                old(self).sensitivity@,
                old(self).price,
                old(self).total_in_fund_before_calc@,
                opt_view(old(self).liquidation_margin_factor),
                old(self).pass_state(),
                old(self).delta_notional@,
            ) {
                Some(s) => r is Ok && final(self).pass_state() == s,
                None => r == Err::<(), PerpError>(PerpError::Arithmetic),
            },
    {
        let net = self.net_notional;
        let delta = self.delta_notional;
        let after = lift(net.checked_add(&delta))?;
        let product = lift(net.checked_mul(&after))?;
        if product.is_negative() {
            self.update_inner(net.neg())?;
            let rest = lift(delta.checked_add(&net))?;
            self.update_inner(rest)
        } else {
            self.update_inner(delta)
        }
    }
}


/// Why a delta neutrality fee is charged.
#[derive(Clone, Copy, Debug, PartialEq, Eq, Structural)]
pub enum DeltaNeutralityFeeReason {
    PositionOpen,
    PositionUpdate,
    PositionClose,
}

/// The outcome of charging a delta neutrality fee, before it is stored.
#[derive(Clone, Copy, Debug, PartialEq, Eq, Structural)]
pub struct ChargeDeltaNeutralityFeeResult {
    /// The whole fee (positive: paid by the trader).
    pub fee: Number,
    /// The part of the fee that goes into (or out of) the fund.
    pub fund_fees: Number,
    pub total_funds_before: Number,
    pub total_funds_after: Number,
    /// The part of a fee paid in that goes to the protocol.
    pub protocol_fees: Number,
    pub cap_triggered_info: Option<CapTriggeredInfo>,
    pub reason: DeltaNeutralityFeeReason,
}

/// Protocol share of a fee: the taxed part of a strictly positive fee, or
/// zero when the fee is not positive or the product overflows.
pub open spec fn spec_protocol_fees(fees: int, tax: int) -> int {
    if fees > 0 {
        match checked(trunc_mul(fees, tax)) {
            Some(p) => p,
            None => 0,
        }
    } else {
        0
    }
}

/// The outcome of charging a delta neutrality fee: the fee, the protocol's
/// share, and the cap information; the fund may not become negative.
pub open spec fn spec_charge(
    cap: int,
    sensitivity: int,
    tax: int,
    net_notional: int,
    notional_delta: int,
    price: PricePoint,
    liquidation_margin_factor: Option<int>,
    total_in_fund: int,
) -> Result<(int, int, Option<(int, int)>), PerpError> {
    match spec_run(cap, sensitivity, price, total_in_fund, liquidation_margin_factor, (0, net_notional, None), notional_delta) {
        None => Err(PerpError::Arithmetic),
        Some((fees, _, triggered)) => {
            let protocol = spec_protocol_fees(fees, tax);
            if !in_range(fees - protocol) {
                Err(PerpError::Arithmetic)
            } else if !(0 <= total_in_fund + fees - protocol && in_range(total_in_fund + fees - protocol)) {
                Err(PerpError::NegativeDeltaNeutralityFund)
            } else {
                Ok((fees, protocol, triggered))
            }
        },
    }
}

/// The charge for a fee `fees` with protocol share `protocol`, from a fund
/// holding `total_in_fund`.
pub open spec fn charge_result_of(
    fees: int,
    protocol: int,
    triggered: Option<(int, int)>,
    total_in_fund: Number,
    reason: DeltaNeutralityFeeReason,
) -> ChargeDeltaNeutralityFeeResult {
    ChargeDeltaNeutralityFeeResult {
        fee: number_of(fees),
        fund_fees: number_of(fees - protocol),
        total_funds_before: total_in_fund,
        total_funds_after: number_of(total_in_fund@ + fees - protocol),
        protocol_fees: number_of(protocol),
        cap_triggered_info: cap_info_of(triggered),
        reason,
    }
}

/// Charges the delta neutrality fee for changing the market's net notional
/// by `notional_delta`, without touching the position: runs the fee
/// calculation (capped by the position's delta neutrality margin when
/// closing or updating), takes the protocol's tax from a fee paid in, and
/// computes the fund's new balance, which may not become negative.
pub fn charge_delta_neutrality_fee_no_update(
    cap: Number,
    sensitivity: Number,
    tax: Number,
    net_notional: Number,
    notional_delta: Number,
    price: PricePoint,
    reason: DeltaNeutralityFeeReason,
    position_delta_neutrality_margin: Number,
    total_in_fund: Number,
) -> (r: Result<ChargeDeltaNeutralityFeeResult, PerpError>)
    requires
        price.wf(),
        tax@ >= 0,
    ensures
        ({
            let lmf = match reason {
                DeltaNeutralityFeeReason::PositionOpen => None,
                _ => Some(position_delta_neutrality_margin@),
            };
            match spec_run(cap@, sensitivity@, price, total_in_fund@, lmf, (0, net_notional@, None), notional_delta@) {
                None => r == Err::<ChargeDeltaNeutralityFeeResult, PerpError>(PerpError::Arithmetic),
                Some((fees, _, triggered)) => {
                    let protocol = spec_protocol_fees(fees, tax@);
                    if !in_range(fees - protocol) {
                        r == Err::<ChargeDeltaNeutralityFeeResult, PerpError>(PerpError::Arithmetic)
                    } else if !(0 <= total_in_fund@ + fees - protocol && in_range(total_in_fund@ + fees - protocol)) {
                        r == Err::<ChargeDeltaNeutralityFeeResult, PerpError>(PerpError::NegativeDeltaNeutralityFund)
                    } else {
                        r matches Ok(c) && c.fee@ == fees && c.protocol_fees@ == protocol
                            && c.fund_fees@ == fees - protocol && c.total_funds_before == total_in_fund
                            && c.total_funds_after@ == total_in_fund@ + fees - protocol
                            && opt_cap_view(c.cap_triggered_info) == triggered && c.reason == reason
                    }
                },
            }
        }),
        match spec_charge(
            cap@,
            sensitivity@,
            tax@,
            net_notional@,
            notional_delta@,
            price,
            match reason {
                DeltaNeutralityFeeReason::PositionOpen => None,
                _ => Some(position_delta_neutrality_margin@),
            },
            total_in_fund@,
        ) {
            Err(e) => r == Err::<ChargeDeltaNeutralityFeeResult, PerpError>(e),
            Ok((fees, protocol, triggered)) => r == Ok::<ChargeDeltaNeutralityFeeResult, PerpError>(
                charge_result_of(fees, protocol, triggered, total_in_fund, reason),
            ),
        },
{
    proof {
        broadcast use lemma_cap_info_of_view;
    }
    let lmf = match reason {
        DeltaNeutralityFeeReason::PositionOpen => None,
        _ => Some(position_delta_neutrality_margin),
    };
    let mut calc = DeltaNeutralityFeeMultiPass::new(
        cap,
        sensitivity,
        net_notional,
        notional_delta,
        price,
        lmf,
        total_in_fund,
    );
    calc.run()?;
    let fees = calc.fees;
    let protocol_fees = if fees.is_strictly_positive() {
        match fees.checked_mul(&tax) {
            Some(p) => p,
            None => Number::zero(),
        }
    } else {
        Number::zero()
    };
    let fund_fees = lift(fees.checked_sub(&protocol_fees))?;
    let total_funds_after = match total_in_fund.checked_add(&fund_fees) {
        Some(t) => t,
        None => return Err(PerpError::NegativeDeltaNeutralityFund),
    };
    if total_funds_after.is_negative() {
        return Err(PerpError::NegativeDeltaNeutralityFund);
    }
    Ok(
        ChargeDeltaNeutralityFeeResult {
            fee: fees,
            fund_fees,
            total_funds_before: total_in_fund,
            total_funds_after,
            protocol_fees,
            cap_triggered_info: calc.cap_triggered_info,
            reason,
        },
    )
}

/// The delta neutrality fee, in collateral, for changing the market's net
/// notional by `notional_delta`, without charging it: the result of the
/// whole calculation (positive: paid by the trader).
pub fn calc_delta_neutrality_fee(
    cap: Number,
    sensitivity: Number,
    net_notional: Number,
    notional_delta: Number,
    price: PricePoint,
    liquidation_margin_factor: Option<Number>,
    total_in_fund: Number,
) -> (r: Result<Number, PerpError>)
    requires
        price.wf(),
    ensures
        match spec_run(
            cap@,
            sensitivity@,
            price,
            total_in_fund@,
            opt_view(liquidation_margin_factor),
            (0, net_notional@, None),
            notional_delta@,
        ) {
            Some((fees, _, _)) => r matches Ok(f) && f@ == fees,
            None => r == Err::<Number, PerpError>(PerpError::Arithmetic),
        },
{
    let mut calc = DeltaNeutralityFeeMultiPass::new(
        cap,
        sensitivity,
        net_notional,
        notional_delta,
        price,
        liquidation_margin_factor,
        total_in_fund,
    );
    calc.run()?;
    Ok(calc.fees)
}

/// The new open interest on the side that changed.
#[derive(Clone, Copy, Debug, PartialEq, Eq, Structural)]
pub enum AdjustOpenInterestResult {
    /// Set the long interest to this value.
    Long(Number),
    /// Set the short interest to this value.
    Short(Number),
}

/// The refusal for a market already capped in `dir`.
pub fn already(
    dir: DirectionToBase,
    cap: Number,
    sensitivity: Number,
    instant_before: Number,
    net_notional_before: Number,
    net_notional_after: Number,
) -> (r: PerpError)
    ensures
        r == (match dir {
            DirectionToBase::Long => PerpError::DeltaNeutralityFeeAlreadyLong {
                cap,
                sensitivity,
                instant_before,
                net_notional_before,
                net_notional_after,
            },
            DirectionToBase::Short => PerpError::DeltaNeutralityFeeAlreadyShort {
                cap,
                sensitivity,
                instant_before,
                net_notional_before,
                net_notional_after,
            },
        }),
{
    match dir {
        DirectionToBase::Long => PerpError::DeltaNeutralityFeeAlreadyLong {
            cap,
            sensitivity,
            instant_before,
            net_notional_before,
            net_notional_after,
        },
        DirectionToBase::Short => PerpError::DeltaNeutralityFeeAlreadyShort {
            cap,
            sensitivity,
            instant_before,
            net_notional_before,
            net_notional_after,
        },
    }
}

/// The refusal for a change that would newly cap the market in `dir`.
pub fn newly(
    dir: DirectionToBase,
    cap: Number,
    sensitivity: Number,
    instant_after: Number,
    net_notional_before: Number,
    net_notional_after: Number,
) -> (r: PerpError)
    ensures
        r == (match dir {
            DirectionToBase::Long => PerpError::DeltaNeutralityFeeNewlyLong {
                cap,
                sensitivity,
                instant_after,
                net_notional_before,
                net_notional_after,
            },
            DirectionToBase::Short => PerpError::DeltaNeutralityFeeNewlyShort {
                cap,
                sensitivity,
                instant_after,
                net_notional_before,
                net_notional_after,
            },
        }),
{
    match dir {
        DirectionToBase::Long => PerpError::DeltaNeutralityFeeNewlyLong {
            cap,
            sensitivity,
            instant_after,
            net_notional_before,
            net_notional_after,
        },
        DirectionToBase::Short => PerpError::DeltaNeutralityFeeNewlyShort {
            cap,
            sensitivity,
            instant_after,
            net_notional_before,
            net_notional_after,
        },
    }
}

/// The refusal for a change that would swing the market from one cap to the
/// other; `dir` is the direction it swings to.
pub fn flipped(
    dir: DirectionToBase,
    cap: Number,
    sensitivity: Number,
    instant_before: Number,
    instant_after: Number,
    net_notional_before: Number,
    net_notional_after: Number,
) -> (r: PerpError)
    ensures
        r == (match dir {
            DirectionToBase::Long => PerpError::DeltaNeutralityFeeShortToLong {
                cap,
                sensitivity,
                instant_before,
                instant_after,
                net_notional_before,
                net_notional_after,
            },
            DirectionToBase::Short => PerpError::DeltaNeutralityFeeLongToShort {
                cap,
                sensitivity,
                instant_before,
                instant_after,
                net_notional_before,
                net_notional_after,
            },
        }),
{
    match dir {
        DirectionToBase::Long => PerpError::DeltaNeutralityFeeShortToLong {
            cap,
            sensitivity,
            instant_before,
            instant_after,
            net_notional_before,
            net_notional_after,
        },
        DirectionToBase::Short => PerpError::DeltaNeutralityFeeLongToShort {
            cap,
            sensitivity,
            instant_before,
            instant_after,
            net_notional_before,
            net_notional_after,
        },
    }
}

/// How a change of net open interest stands against the delta neutrality
/// caps.
pub enum OpenInterestVerdict {
    Allowed,
    Already,
    Newly,
    Flipped,
}

/// Classifies a change of the instantaneous delta neutrality ratio from
/// `before` to `after` (atoms), moving long when `diff >= 0`: a market at a
/// cap may only move back from it and not all the way to the other cap; an
/// uncapped market may not reach a cap.
pub open spec fn spec_open_interest_verdict(cap: int, diff: int, before: int, after: int) -> OpenInterestVerdict {
    let going_long = diff >= 0;
    if before <= -cap {
        if !going_long {
            OpenInterestVerdict::Already
        } else if after >= cap {
            OpenInterestVerdict::Flipped
        } else {
            OpenInterestVerdict::Allowed
        }
    } else if before >= cap {
        if going_long {
            OpenInterestVerdict::Already
        } else if after <= -cap {
            OpenInterestVerdict::Flipped
        } else {
            OpenInterestVerdict::Allowed
        }
    } else if after <= -cap || after >= cap {
        OpenInterestVerdict::Newly
    } else {
        OpenInterestVerdict::Allowed
    }
}

/// The error `e` reports the verdict in direction `dir` with these values.
pub open spec fn spec_verdict_error(
    e: PerpError,
    verdict: OpenInterestVerdict,
    dir: DirectionToBase,
    cap: Number,
    sensitivity: Number,
    before: int,
    after: int,
    net_before: int,
    net_after: int,
) -> bool {
    match (verdict, dir, e) {
        (
            OpenInterestVerdict::Already,
            DirectionToBase::Long,
            PerpError::DeltaNeutralityFeeAlreadyLong { cap: c, sensitivity: s, instant_before: b, net_notional_before: nb, net_notional_after: na },
        ) => c == cap && s == sensitivity && b@ == before && nb@ == net_before && na@ == net_after,
        (
            OpenInterestVerdict::Already,
            DirectionToBase::Short,
            PerpError::DeltaNeutralityFeeAlreadyShort { cap: c, sensitivity: s, instant_before: b, net_notional_before: nb, net_notional_after: na },
        ) => c == cap && s == sensitivity && b@ == before && nb@ == net_before && na@ == net_after,
        (
            OpenInterestVerdict::Newly,
            DirectionToBase::Long,
            PerpError::DeltaNeutralityFeeNewlyLong { cap: c, sensitivity: s, instant_after: a, net_notional_before: nb, net_notional_after: na },
        ) => c == cap && s == sensitivity && a@ == after && nb@ == net_before && na@ == net_after,
        (
            OpenInterestVerdict::Newly,
            DirectionToBase::Short,
            PerpError::DeltaNeutralityFeeNewlyShort { cap: c, sensitivity: s, instant_after: a, net_notional_before: nb, net_notional_after: na },
        ) => c == cap && s == sensitivity && a@ == after && nb@ == net_before && na@ == net_after,
        (
            OpenInterestVerdict::Flipped,
            DirectionToBase::Long,
            PerpError::DeltaNeutralityFeeShortToLong { cap: c, sensitivity: s, instant_before: b, instant_after: a, net_notional_before: nb, net_notional_after: na },
        ) => c == cap && s == sensitivity && b@ == before && a@ == after && nb@ == net_before && na@ == net_after,
        (
            OpenInterestVerdict::Flipped,
            DirectionToBase::Short,
            PerpError::DeltaNeutralityFeeLongToShort { cap: c, sensitivity: s, instant_before: b, instant_after: a, net_notional_before: nb, net_notional_after: na },
        ) => c == cap && s == sensitivity && b@ == before && a@ == after && nb@ == net_before && na@ == net_after,
        _ => false,
    }
}

/// The refusal for a verdict other than allowed.
pub open spec fn spec_verdict_refusal(
    verdict: OpenInterestVerdict,
    dir: DirectionToBase,
    cap: Number,
    sensitivity: Number,
    before: int,
    after: int,
    net_before: int,
    net_after: int,
) -> PerpError {
    let (b, a, nb, na) = (number_of(before), number_of(after), number_of(net_before), number_of(net_after));
    match (verdict, dir) {
        (OpenInterestVerdict::Already, DirectionToBase::Long) => PerpError::DeltaNeutralityFeeAlreadyLong {
            cap,
            sensitivity,
            instant_before: b,
            net_notional_before: nb,
            net_notional_after: na,
        },
        (OpenInterestVerdict::Already, DirectionToBase::Short) => PerpError::DeltaNeutralityFeeAlreadyShort {
            cap,
            sensitivity,
            instant_before: b,
            net_notional_before: nb,
            net_notional_after: na,
        },
        (OpenInterestVerdict::Newly, DirectionToBase::Long) => PerpError::DeltaNeutralityFeeNewlyLong {
            cap,
            sensitivity,
            instant_after: a,
            net_notional_before: nb,
            net_notional_after: na,
        },
        (OpenInterestVerdict::Newly, DirectionToBase::Short) => PerpError::DeltaNeutralityFeeNewlyShort {
            cap,
            sensitivity,
            instant_after: a,
            net_notional_before: nb,
            net_notional_after: na,
        },
        (_, DirectionToBase::Long) => PerpError::DeltaNeutralityFeeShortToLong {
            cap,
            sensitivity,
            instant_before: b,
            instant_after: a,
            net_notional_before: nb,
            net_notional_after: na,
        },
        (_, DirectionToBase::Short) => PerpError::DeltaNeutralityFeeLongToShort {
            cap,
            sensitivity,
            instant_before: b,
            instant_after: a,
            net_notional_before: nb,
            net_notional_after: na,
        },
    }
}

/// The outcome of adjusting the open interest on side `dir` by `diff`.
pub open spec fn spec_adjust_open_interest(
    long_before: int,
    short_before: int,
    diff: int,
    dir: DirectionToNotional,
    assert_cap: bool,
    cap: Number,
    sensitivity: Number,
    market_type: MarketType,
) -> Result<AdjustOpenInterestResult, PerpError> {
    let long_after = match dir {
        DirectionToNotional::Long => long_before + diff,
        DirectionToNotional::Short => long_before,
    };
    let short_after = match dir {
        DirectionToNotional::Long => short_before,
        DirectionToNotional::Short => short_before - diff,
    };
    let ok = match dir {
        DirectionToNotional::Long => AdjustOpenInterestResult::Long(number_of(long_after)),
        DirectionToNotional::Short => AdjustOpenInterestResult::Short(number_of(short_after)),
    };
    if !(0 <= long_after && in_range(long_after)) {
        Err(PerpError::LongInterestWouldBeNegative)
    } else if !(0 <= short_after && in_range(short_after)) {
        Err(PerpError::ShortInterestWouldBeNegative)
    } else if !assert_cap {
        Ok(ok)
    } else {
        let net_before = long_before - short_before;
        let net_after = long_after - short_after;
        match (odiv(Some(net_before), Some(sensitivity@)), odiv(Some(net_after), Some(sensitivity@))) {
            (Some(before), Some(after)) => {
                let verdict = spec_open_interest_verdict(cap@, diff, before, after);
                let dir_base = spec_into_base(
                    if diff >= 0 {
                        DirectionToNotional::Long
                    } else {
                        DirectionToNotional::Short
                    },
                    market_type,
                );
                match verdict {
                    OpenInterestVerdict::Allowed => Ok(ok),
                    _ => Err(spec_verdict_refusal(verdict, dir_base, cap, sensitivity, before, after, net_before, net_after)),
                }
            },
            _ => Err(PerpError::Arithmetic),
        }
    }
}

/// Validates a change of open interest by `notional_size_diff` on the side
/// `dir`, returning the new interest of that side.
///
/// The side's interest may not become negative. When
/// `assert_delta_neutrality_fee_cap` is set, the change is also checked
/// against the delta neutrality caps (see [`spec_open_interest_verdict`]),
/// with the instantaneous ratios `net_notional / sensitivity` before and
/// after.
pub fn check_adjust_net_open_interest(
    long_before: Number,
    short_before: Number,
    notional_size_diff: Number,
    dir: DirectionToNotional,
    assert_delta_neutrality_fee_cap: bool,
    cap: Number,
    sensitivity: Number,
    market_type: MarketType,
) -> (r: Result<AdjustOpenInterestResult, PerpError>)
    requires
        long_before@ >= 0,
        short_before@ >= 0,
    ensures
        ({
            let long_after = match dir {
                DirectionToNotional::Long => long_before@ + notional_size_diff@,
                DirectionToNotional::Short => long_before@,
            };
            let short_after = match dir {
                DirectionToNotional::Long => short_before@,
                DirectionToNotional::Short => short_before@ - notional_size_diff@,
            };
            if !(0 <= long_after && in_range(long_after)) {
                r == Err::<AdjustOpenInterestResult, PerpError>(PerpError::LongInterestWouldBeNegative)
            } else if !(0 <= short_after && in_range(short_after)) {
                r == Err::<AdjustOpenInterestResult, PerpError>(PerpError::ShortInterestWouldBeNegative)
            } else {
                let ok = match dir {
                    DirectionToNotional::Long => r matches Ok(AdjustOpenInterestResult::Long(v)) && v@ == long_after,
                    DirectionToNotional::Short => r matches Ok(AdjustOpenInterestResult::Short(v)) && v@ == short_after,
                };
                if !assert_delta_neutrality_fee_cap {
                    ok
                } else {
                    let net_before = long_before@ - short_before@;
                    let net_after = long_after - short_after;
                    match (odiv(Some(net_before), Some(sensitivity@)), odiv(Some(net_after), Some(sensitivity@))) {
                        (Some(before), Some(after)) => {
                            let verdict = spec_open_interest_verdict(cap@, notional_size_diff@, before, after);
                            let dir_base = spec_into_base(
                                if notional_size_diff@ >= 0 { DirectionToNotional::Long } else { DirectionToNotional::Short },
                                market_type,
                            );
                            match verdict {
                                OpenInterestVerdict::Allowed => ok,
                                _ => r matches Err(e) && spec_verdict_error(
                                    e,
                                    verdict,
                                    dir_base,
                                    cap,
                                    sensitivity,
                                    before,
                                    after,
                                    net_before,
                                    net_after,
                                ),
                            }
                        },
                        _ => r == Err::<AdjustOpenInterestResult, PerpError>(PerpError::Arithmetic),
                    }
                }
            }
        }),
        r == spec_adjust_open_interest(
            long_before@,
            short_before@,
            notional_size_diff@,
            dir,
            assert_delta_neutrality_fee_cap,
            cap,
            sensitivity,
            market_type,
        ),
{
    long_before.range_fact();
    short_before.range_fact();
    let long_after;
    let short_after;
    let adjust_res;
    match dir {
        DirectionToNotional::Long => {
            long_after = match long_before.checked_add(&notional_size_diff) {
                Some(v) => v,
                None => return Err(PerpError::LongInterestWouldBeNegative),
            };
            if long_after.is_negative() {
                return Err(PerpError::LongInterestWouldBeNegative);
            }
            short_after = short_before;
            adjust_res = AdjustOpenInterestResult::Long(long_after);
        },
        DirectionToNotional::Short => {
            long_after = long_before;
            short_after = match short_before.checked_sub(&notional_size_diff) {
                Some(v) => v,
                None => return Err(PerpError::ShortInterestWouldBeNegative),
            };
            if short_after.is_negative() {
                return Err(PerpError::ShortInterestWouldBeNegative);
            }
            adjust_res = AdjustOpenInterestResult::Short(short_after);
        },
    }
    if !assert_delta_neutrality_fee_cap {
        return Ok(adjust_res);
    }
    let net_before = lift(long_before.checked_sub(&short_before))?;
    let net_after = lift(long_after.checked_sub(&short_after))?;
    let before = lift(net_before.checked_div(&sensitivity))?;
    let after = lift(net_after.checked_div(&sensitivity))?;
    let neg_cap = cap.neg();
    let capped_low_before = before.le(&neg_cap);
    let capped_high_before = cap.le(&before);
    let capped_low_after = after.le(&neg_cap);
    let capped_high_after = cap.le(&after);
    let notional_direction = if notional_size_diff.is_positive_or_zero() {
        DirectionToNotional::Long
    } else {
        DirectionToNotional::Short
    };
    let base_direction = notional_direction.into_base(market_type);
    if capped_low_before {
        match notional_direction {
            DirectionToNotional::Short => Err(
                already(base_direction, cap, sensitivity, before, net_before, net_after),
            ),
            DirectionToNotional::Long => {
                if capped_high_after {
                    Err(flipped(base_direction, cap, sensitivity, before, after, net_before, net_after))
                } else {
                    Ok(adjust_res)
                }
            },
        }
    } else if capped_high_before {
        match notional_direction {
            DirectionToNotional::Long => Err(
                already(base_direction, cap, sensitivity, before, net_before, net_after),
            ),
            DirectionToNotional::Short => {
                if capped_low_after {
                    Err(flipped(base_direction, cap, sensitivity, before, after, net_before, net_after))
                } else {
                    Ok(adjust_res)
                }
            },
        }
    } else if capped_low_after || capped_high_after {
        Err(newly(base_direction, cap, sensitivity, after, net_before, net_after))
    } else {
        Ok(adjust_res)
    }
}


/// The delta neutrality fee in exact arithmetic, multiplied by
/// `2 * sensitivity` so that it is a whole number: with `limit = cap *
/// sensitivity`, the parts of the move beyond `-limit` and `limit` are
/// charged at the capped ratios and the part in between at the linear
/// ratio. Values here are mathematical integers, not atom counts.
pub open spec fn spec_dnf_exact_2s(cap: int, sensitivity: int, net: int, delta: int) -> int {
    let limit = cap * sensitivity;
    let after = net + delta;
    let d_low = min_int(after, -limit) - min_int(net, -limit);
    let d_high = max_int(after, limit) - max_int(net, limit);
    let uncapped = delta - d_low - d_high;
    let clamped = max_int(min_int(net, limit), -limit);
    2 * sensitivity * (d_low * (-cap) + d_high * cap) + uncapped * uncapped + 2 * uncapped * clamped
}

/// Twice `sensitivity` times the integral of the instantaneous ratio
/// `clamp(x / sensitivity, -cap, cap)` from zero to `x`.
pub open spec fn spec_dnf_potential(limit: int, x: int) -> int {
    if x >= limit {
        2 * limit * x - limit * limit
    } else if x <= -limit {
        -2 * limit * x - limit * limit
    } else {
        x * x
    }
}

proof fn lemma_dnf_exact_is_difference(cap: int, sensitivity: int, net: int, delta: int)
    requires
        cap >= 0,
        sensitivity > 0,
    ensures
        spec_dnf_exact_2s(cap, sensitivity, net, delta) == spec_dnf_potential(cap * sensitivity, net + delta)
            - spec_dnf_potential(cap * sensitivity, net),
{
    let limit = cap * sensitivity;
    assert(limit >= 0) by (nonlinear_arith)
        requires
            cap >= 0,
            sensitivity > 0,
            limit == cap * sensitivity,
    ;
    let after = net + delta;
    let d_low = min_int(after, -limit) - min_int(net, -limit);
    let d_high = max_int(after, limit) - max_int(net, limit);
    let uncapped = delta - d_low - d_high;
    let clamped = max_int(min_int(net, limit), -limit);
    assert(2 * sensitivity * (d_low * (-cap) + d_high * cap) == 2 * limit * (d_high - d_low)) by (nonlinear_arith)
        requires
            limit == cap * sensitivity,
    ;
    if net <= -limit && after <= -limit {
        assert(2 * limit * ((max_int(after, limit) - max_int(net, limit)) - (min_int(after, -limit) - min_int(net, -limit)))
            + uncapped * uncapped + 2 * uncapped * clamped == spec_dnf_potential(limit, after) - spec_dnf_potential(limit, net)) by (nonlinear_arith)
            requires
                limit >= 0,
                after == net + delta,
                net <= -limit,
                after <= -limit,
                min_int(after, -limit) == after,
                min_int(net, -limit) == net,
                max_int(after, limit) == limit,
                max_int(net, limit) == limit,
                uncapped == delta - (after - (net)) - (limit - limit),
                clamped == -limit,
                spec_dnf_potential(limit, after) == -2 * limit * after - limit * limit,
                spec_dnf_potential(limit, net) == -2 * limit * net - limit * limit,
        ;
    } else if net <= -limit && -limit < after && after < limit {
        assert(2 * limit * ((max_int(after, limit) - max_int(net, limit)) - (min_int(after, -limit) - min_int(net, -limit)))
            + uncapped * uncapped + 2 * uncapped * clamped == spec_dnf_potential(limit, after) - spec_dnf_potential(limit, net)) by (nonlinear_arith)
            requires
                limit >= 0,
                after == net + delta,
                net <= -limit,
                -limit < after && after < limit,
                min_int(after, -limit) == -limit,
                min_int(net, -limit) == net,
                max_int(after, limit) == limit,
                max_int(net, limit) == limit,
                uncapped == delta - (-limit - (net)) - (limit - limit),
                clamped == -limit,
                spec_dnf_potential(limit, after) == after * after,
                spec_dnf_potential(limit, net) == -2 * limit * net - limit * limit,
        ;
    } else if net <= -limit && after >= limit {
        assert(2 * limit * ((max_int(after, limit) - max_int(net, limit)) - (min_int(after, -limit) - min_int(net, -limit)))
            + uncapped * uncapped + 2 * uncapped * clamped == spec_dnf_potential(limit, after) - spec_dnf_potential(limit, net)) by (nonlinear_arith)
            requires
                limit >= 0,
                after == net + delta,
                net <= -limit,
                after >= limit,
                min_int(after, -limit) == -limit,
                min_int(net, -limit) == net,
                max_int(after, limit) == after,
                max_int(net, limit) == limit,
                uncapped == delta - (-limit - (net)) - (after - limit),
                clamped == -limit,
                spec_dnf_potential(limit, after) == 2 * limit * after - limit * limit,
                spec_dnf_potential(limit, net) == -2 * limit * net - limit * limit,
        ;
    } else if -limit < net && net < limit && after <= -limit {
        assert(2 * limit * ((max_int(after, limit) - max_int(net, limit)) - (min_int(after, -limit) - min_int(net, -limit)))
            + uncapped * uncapped + 2 * uncapped * clamped == spec_dnf_potential(limit, after) - spec_dnf_potential(limit, net)) by (nonlinear_arith)
            requires
                limit >= 0,
                after == net + delta,
                -limit < net && net < limit,
                after <= -limit,
                min_int(after, -limit) == after,
                min_int(net, -limit) == -limit,
                max_int(after, limit) == limit,
                max_int(net, limit) == limit,
                uncapped == delta - (after - (-limit)) - (limit - limit),
                clamped == net,
                spec_dnf_potential(limit, after) == -2 * limit * after - limit * limit,
                spec_dnf_potential(limit, net) == net * net,
        ;
    } else if -limit < net && net < limit && -limit < after && after < limit {
        assert(2 * limit * ((max_int(after, limit) - max_int(net, limit)) - (min_int(after, -limit) - min_int(net, -limit)))
            + uncapped * uncapped + 2 * uncapped * clamped == spec_dnf_potential(limit, after) - spec_dnf_potential(limit, net)) by (nonlinear_arith)
            requires
                limit >= 0,
                after == net + delta,
                -limit < net && net < limit,
                -limit < after && after < limit,
                min_int(after, -limit) == -limit,
                min_int(net, -limit) == -limit,
                max_int(after, limit) == limit,
                max_int(net, limit) == limit,
                uncapped == delta - (-limit - (-limit)) - (limit - limit),
                clamped == net,
                spec_dnf_potential(limit, after) == after * after,
                spec_dnf_potential(limit, net) == net * net,
        ;
    } else if -limit < net && net < limit && after >= limit {
        assert(2 * limit * ((max_int(after, limit) - max_int(net, limit)) - (min_int(after, -limit) - min_int(net, -limit)))
            + uncapped * uncapped + 2 * uncapped * clamped == spec_dnf_potential(limit, after) - spec_dnf_potential(limit, net)) by (nonlinear_arith)
            requires
                limit >= 0,
                after == net + delta,
                -limit < net && net < limit,
                after >= limit,
                min_int(after, -limit) == -limit,
                min_int(net, -limit) == -limit,
                max_int(after, limit) == after,
                max_int(net, limit) == limit,
                uncapped == delta - (-limit - (-limit)) - (after - limit),
                clamped == net,
                spec_dnf_potential(limit, after) == 2 * limit * after - limit * limit,
                spec_dnf_potential(limit, net) == net * net,
        ;
    } else if net >= limit && after <= -limit {
        assert(2 * limit * ((max_int(after, limit) - max_int(net, limit)) - (min_int(after, -limit) - min_int(net, -limit)))
            + uncapped * uncapped + 2 * uncapped * clamped == spec_dnf_potential(limit, after) - spec_dnf_potential(limit, net)) by (nonlinear_arith)
            requires
                limit >= 0,
                after == net + delta,
                net >= limit,
                after <= -limit,
                min_int(after, -limit) == after,
                min_int(net, -limit) == -limit,
                max_int(after, limit) == limit,
                max_int(net, limit) == net,
                uncapped == delta - (after - (-limit)) - (limit - net),
                clamped == limit,
                spec_dnf_potential(limit, after) == -2 * limit * after - limit * limit,
                spec_dnf_potential(limit, net) == 2 * limit * net - limit * limit,
        ;
    } else if net >= limit && -limit < after && after < limit {
        assert(2 * limit * ((max_int(after, limit) - max_int(net, limit)) - (min_int(after, -limit) - min_int(net, -limit)))
            + uncapped * uncapped + 2 * uncapped * clamped == spec_dnf_potential(limit, after) - spec_dnf_potential(limit, net)) by (nonlinear_arith)
            requires
                limit >= 0,
                after == net + delta,
                net >= limit,
                -limit < after && after < limit,
                min_int(after, -limit) == -limit,
                min_int(net, -limit) == -limit,
                max_int(after, limit) == limit,
                max_int(net, limit) == net,
                uncapped == delta - (-limit - (-limit)) - (limit - net),
                clamped == limit,
                spec_dnf_potential(limit, after) == after * after,
                spec_dnf_potential(limit, net) == 2 * limit * net - limit * limit,
        ;
    } else if net >= limit && after >= limit {
        assert(2 * limit * ((max_int(after, limit) - max_int(net, limit)) - (min_int(after, -limit) - min_int(net, -limit)))
            + uncapped * uncapped + 2 * uncapped * clamped == spec_dnf_potential(limit, after) - spec_dnf_potential(limit, net)) by (nonlinear_arith)
            requires
                limit >= 0,
                after == net + delta,
                net >= limit,
                after >= limit,
                min_int(after, -limit) == -limit,
                min_int(net, -limit) == -limit,
                max_int(after, limit) == after,
                max_int(net, limit) == net,
                uncapped == delta - (-limit - (-limit)) - (after - net),
                clamped == limit,
                spec_dnf_potential(limit, after) == 2 * limit * after - limit * limit,
                spec_dnf_potential(limit, net) == 2 * limit * net - limit * limit,
        ;
    }
}

/// Path independence of the delta neutrality fee (in exact arithmetic):
/// moving the net notional by `d1` and then by `d2` costs the same as
/// moving it by `d1 + d2` at once.
pub proof fn lemma_dnf_path_independent(cap: int, sensitivity: int, net: int, d1: int, d2: int)
    requires
        cap >= 0,
        sensitivity > 0,
    ensures
        spec_dnf_exact_2s(cap, sensitivity, net, d1) + spec_dnf_exact_2s(cap, sensitivity, net + d1, d2)
            == spec_dnf_exact_2s(cap, sensitivity, net, d1 + d2),
{
    lemma_dnf_exact_is_difference(cap, sensitivity, net, d1);
    lemma_dnf_exact_is_difference(cap, sensitivity, net + d1, d2);
    lemma_dnf_exact_is_difference(cap, sensitivity, net, d1 + d2);
}

/// Returning the net notional to where it was is free (in exact
/// arithmetic): the fee of a move and of its reverse cancel out.
pub proof fn lemma_dnf_round_trip(cap: int, sensitivity: int, net: int, delta: int)
    requires
        cap >= 0,
        sensitivity > 0,
    ensures
        spec_dnf_exact_2s(cap, sensitivity, net, delta) + spec_dnf_exact_2s(cap, sensitivity, net + delta, -delta) == 0,
{
    lemma_dnf_exact_is_difference(cap, sensitivity, net, delta);
    lemma_dnf_exact_is_difference(cap, sensitivity, net + delta, -delta);
}

/// Whether a pass charged the cap `c` in place of a larger fee and
/// recorded it: the cap, with the fee that was requested.
pub open spec fn cap_recorded(liquidation_margin_factor: Option<int>, charged: int, info: Option<(int, int)>) -> bool {
    match (liquidation_margin_factor, info) {
        (Some(c), Some((available, requested))) => charged == c && available == c && requested > c,
        _ => false,
    }
}

/// What one pass does: the fund (its balance before the calculation plus
/// the fees so far) is never overdrawn by a payout to the trader, the net
/// notional moves by exactly `delta`, and with a cap on what the position
/// pays, the pass charges at most the cap; it records the cap, with the fee
/// requested beyond it, exactly when it charges the cap in place of a larger
/// fee, and otherwise leaves the cap information as it was.
#[verifier::rlimit(40)]
pub proof fn lemma_pass_never_overdraws_fund(
    cap: int,
    sensitivity: int,
    price: PricePoint,
    fund_before: int,
    liquidation_margin_factor: Option<int>,
    state: PassState,
    delta: int,
)
    requires
        liquidation_margin_factor matches Some(c) ==> c >= 0,
    ensures
        spec_update_inner(cap, sensitivity, price, fund_before, liquidation_margin_factor, state, delta) matches Some(
            s,
        ) ==> {
            &&& fund_before + s.0 >= 0
            &&& s.1 == state.1 + delta
            &&& liquidation_margin_factor matches Some(c) ==> s.0 - state.0 <= c
            &&& liquidation_margin_factor is None ==> s.2 == state.2
            &&& (s.2 == state.2 || cap_recorded(liquidation_margin_factor, s.0 - state.0, s.2))
        },
{
}

#[verifier::rlimit(40)]
pub proof fn lemma_fund_never_overdrawn(
    cap: int,
    sensitivity: int,
    price: PricePoint,
    fund_before: int,
    liquidation_margin_factor: Option<int>,
    state: PassState,
    delta: int,
)
    requires
        liquidation_margin_factor matches Some(c) ==> c >= 0,
    ensures
        spec_run(cap, sensitivity, price, fund_before, liquidation_margin_factor, state, delta) matches Some(s)
            ==> fund_before + s.0 >= 0,
{
    let lmf = liquidation_margin_factor;
    let net = state.1;
    match checked(net + delta) {
        None => {},
        Some(after) => match checked(trunc_mul(net, after)) {
            None => {},
            Some(product) => if product < 0 {
                lemma_pass_never_overdraws_fund(cap, sensitivity, price, fund_before, lmf, state, -net);
                match spec_update_inner(cap, sensitivity, price, fund_before, lmf, state, -net) {
                    None => {},
                    Some(s1) => match checked(delta + net) {
                        None => {},
                        Some(rest) => {
                            lemma_pass_never_overdraws_fund(cap, sensitivity, price, fund_before, lmf, s1, rest);
                        },
                    },
                }
            } else {
                lemma_pass_never_overdraws_fund(cap, sensitivity, price, fund_before, lmf, state, delta);
            },
        },
    }
}

/// The scaled exact fee as the integers the calculation works with: when
/// `cap * sensitivity` is a whole number `limit * scale()` of atoms, the
/// exact fee over net notionals counted in atoms times `scale()` is
/// `scale()` times its value over the atom counts.
#[verifier::rlimit(60)]
proof fn lemma_dnf_exact_scaled(cap: int, sensitivity: int, limit: int, net: int, delta: int)
    requires
        cap * sensitivity == limit * scale(),
    ensures
        ({
            let after = net + delta;
            let d_low = min_int(after, -limit) - min_int(net, -limit);
            let d_high = max_int(after, limit) - max_int(net, limit);
            let u = delta - d_low - d_high;
            let clamped = max_int(min_int(net, limit), -limit);
            spec_dnf_exact_2s(cap, sensitivity, net * scale(), delta * scale()) == scale() * (2 * sensitivity * cap
                * (d_high - d_low) + scale() * (u * u + 2 * u * clamped))
        }),
{
    let sc = scale();
    let after = net + delta;
    let d_low = min_int(after, -limit) - min_int(net, -limit);
    let d_high = max_int(after, limit) - max_int(net, limit);
    let u = delta - d_low - d_high;
    let clamped = max_int(min_int(net, limit), -limit);
    let lim2 = cap * sensitivity;
    let (n2, a2) = (net * sc, delta * sc);
    assert(n2 + a2 == after * sc) by (nonlinear_arith)
        requires
            n2 == net * sc,
            a2 == delta * sc,
            after == net + delta,
    ;
    lemma_scale_min_max(after, -limit);
    lemma_scale_min_max(net, -limit);
    lemma_scale_min_max(after, limit);
    lemma_scale_min_max(net, limit);
    lemma_scale_min_max(min_int(net, limit), -limit);
    assert(-lim2 == (-limit) * sc) by (nonlinear_arith)
        requires
            lim2 == limit * sc,
    ;
    let dl2 = min_int(n2 + a2, -lim2) - min_int(n2, -lim2);
    let dh2 = max_int(n2 + a2, lim2) - max_int(n2, lim2);
    let cl2 = max_int(min_int(n2, lim2), -lim2);
    assert(min_int(after * sc, (-limit) * sc) == min_int(after, -limit) * sc);
    assert(min_int(net * sc, (-limit) * sc) == min_int(net, -limit) * sc);
    assert(max_int(after * sc, limit * sc) == max_int(after, limit) * sc);
    assert(max_int(net * sc, limit * sc) == max_int(net, limit) * sc);
    assert(min_int(net * sc, limit * sc) == min_int(net, limit) * sc);
    assert(max_int(min_int(net, limit) * sc, (-limit) * sc) == clamped * sc);
    assert(dl2 == d_low * sc) by (nonlinear_arith)
        requires
            dl2 == min_int(after, -limit) * sc - min_int(net, -limit) * sc,
            d_low == min_int(after, -limit) - min_int(net, -limit),
    ;
    assert(dh2 == d_high * sc) by (nonlinear_arith)
        requires
            dh2 == max_int(after, limit) * sc - max_int(net, limit) * sc,
            d_high == max_int(after, limit) - max_int(net, limit),
    ;
    assert(cl2 == clamped * sc);
    let u2 = a2 - dl2 - dh2;
    assert(u2 == u * sc) by (nonlinear_arith)
        requires
            u2 == a2 - dl2 - dh2,
            a2 == delta * sc,
            dl2 == d_low * sc,
            dh2 == d_high * sc,
            u == delta - d_low - d_high,
    ;
    assert(dl2 * (-cap) == sc * (d_low * (-cap))) by (nonlinear_arith)
        requires
            dl2 == d_low * sc,
    ;
    assert(dh2 * cap == sc * (d_high * cap)) by (nonlinear_arith)
        requires
            dh2 == d_high * sc,
    ;
    assert(u2 * u2 == sc * (sc * (u * u))) by (nonlinear_arith)
        requires
            u2 == u * sc,
    ;
    assert(2 * u2 * cl2 == sc * (sc * (2 * u * clamped))) by (nonlinear_arith)
        requires
            u2 == u * sc,
            cl2 == clamped * sc,
    ;
    let x = d_low * (-cap) + d_high * cap;
    assert(x == cap * (d_high - d_low)) by (nonlinear_arith)
        requires
            x == d_low * (-cap) + d_high * cap,
    ;
    assert(2 * sensitivity * (sc * x) == sc * (2 * sensitivity * cap * (d_high - d_low))) by (nonlinear_arith)
        requires
            x == cap * (d_high - d_low),
    ;
    assert(2 * sensitivity * (dl2 * (-cap) + dh2 * cap) == 2 * sensitivity * (sc * x)) by (nonlinear_arith)
        requires
            dl2 * (-cap) == sc * (d_low * (-cap)),
            dh2 * cap == sc * (d_high * cap),
            x == d_low * (-cap) + d_high * cap,
    ;
    assert(sc * (sc * (u * u)) + sc * (sc * (2 * u * clamped)) == sc * (sc * (u * u + 2 * u * clamped))) by (
    nonlinear_arith);
}

/// Scaling by `scale()` keeps the order.
proof fn lemma_scale_min_max(x: int, y: int)
    ensures
        min_int(x * scale(), y * scale()) == min_int(x, y) * scale(),
        max_int(x * scale(), y * scale()) == max_int(x, y) * scale(),
{
    let sc = scale();
    assert(x <= y <==> x * sc <= y * sc) by (nonlinear_arith)
        requires
            sc > 0,
    ;
}

/// Multiplying a bound on a difference by a positive factor.
proof fn lemma_scaled_bound(k: int, x: int, y: int, b: int)
    requires
        k > 0,
        -b < x - y < b,
    ensures
        -(k * b) < k * x - k * y < k * b,
{
    assert(-(k * b) < k * x - k * y < k * b) by (nonlinear_arith)
        requires
            k > 0,
            -b < x - y < b,
    ;
}

/// Rounding bound of the delta neutrality fee: when the cap times the
/// sensitivity is a whole number of atoms and the sensitivity is at least
/// one unit, the fee the calculation returns is within four atoms of the
/// exact fee, the integral that [`lemma_dnf_path_independent`] shows to
/// depend only on where the net notional starts and ends. (Over atom
/// counts, that fee is `spec_dnf_exact_2s` of the counts times `scale()`,
/// divided by `2 * sensitivity * scale()^2`.)
#[verifier::rlimit(60)]
pub proof fn lemma_dnf_amount_rounding(cap: int, sensitivity: int, net: int, delta: int)
    requires
        cap >= 0,
        sensitivity >= scale(),
        (cap * sensitivity) % scale() == 0,
    ensures
        spec_dnf_amount(cap, sensitivity, net, delta) matches Some(v) ==> abs(
            2 * sensitivity * scale() * scale() * v - spec_dnf_exact_2s(cap, sensitivity, net * scale(), delta * scale()),
        ) < 8 * sensitivity * scale() * scale(),
{
    let sc = scale();
    if let Some(v) = spec_dnf_amount(cap, sensitivity, net, delta) {
        let p = cap * sensitivity;
        assert(p >= 0) by (nonlinear_arith)
            requires
                cap >= 0,
                sensitivity >= 0,
                p == cap * sensitivity,
        ;
        vstd::arithmetic::div_mod::lemma_fundamental_div_mod(p, sc);
        let limit = p / sc;
        assert(limit * sc == p) by (nonlinear_arith)
            requires
                p == sc * limit + p % sc,
                p % sc == 0,
        ;
        assert(trunc_mul(cap, sensitivity) == limit);
        assert(trunc_mul(-cap, sensitivity) == -limit) by {
            assert(abs(-cap) == abs(cap));
        }
        let after = net + delta;
        let d_low = min_int(after, -limit) - min_int(net, -limit);
        let d_high = max_int(after, limit) - max_int(net, limit);
        let u = delta - d_low - d_high;
        let clamped = max_int(min_int(net, limit), -limit);
        let fee_low = trunc_mul(d_low, -cap);
        let fee_high = trunc_mul(d_high, cap);
        let square = trunc_mul(u, u);
        assert(trunc_mul(2 * sc, u) == 2 * u) by {
            crate::number::lemma_mul_whole(u, 2);
            assert(abs(2 * sc) * abs(u) == abs(u) * abs(2 * sc)) by (nonlinear_arith);
        }
        let cross = trunc_mul(2 * u, clamped);
        let numerator = square + cross;
        assert(trunc_mul(2 * sc, sensitivity) == 2 * sensitivity) by {
            crate::number::lemma_mul_whole(sensitivity, 2);
            assert(abs(2 * sc) * abs(sensitivity) == abs(sensitivity) * abs(2 * sc)) by (nonlinear_arith);
        }
        let q = trunc_div(numerator, 2 * sensitivity);
        assert(v == fee_low + fee_high + q);
        lemma_trunc_mul_close(d_low, -cap);
        lemma_trunc_mul_close(d_high, cap);
        lemma_trunc_mul_close(u, u);
        lemma_trunc_mul_close(2 * u, clamped);
        lemma_trunc_div_close(numerator, 2 * sensitivity);
        lemma_dnf_exact_scaled(cap, sensitivity, limit, net, delta);
        let t = 2 * sensitivity * cap * (d_high - d_low) + sc * (u * u + 2 * u * clamped);
        let s2 = 2 * sensitivity;
        let (x1, x2) = (d_low * (-cap), d_high * cap);
        let (a1, a2, a3, a4, a5) = (fee_low * sc, fee_high * sc, q * s2, square * sc, cross * sc);
        lemma_scaled_bound(s2, a1, x1, sc);
        lemma_scaled_bound(s2, a2, x2, sc);
        lemma_scaled_bound(sc, a3, numerator * sc, s2);
        lemma_scaled_bound(sc, a4, u * u, sc);
        lemma_scaled_bound(sc, a5, 2 * u * clamped, sc);
        let w = s2 * sc * v;
        assert(w == s2 * a1 + s2 * a2 + sc * a3) by (nonlinear_arith)
            requires
                w == s2 * sc * v,
                v == fee_low + fee_high + q,
                a1 == fee_low * sc,
                a2 == fee_high * sc,
                a3 == q * s2,
        ;
        assert(sc * (numerator * sc) == sc * a4 + sc * a5) by (nonlinear_arith)
            requires
                numerator == square + cross,
                a4 == square * sc,
                a5 == cross * sc,
        ;
        assert(t == s2 * x1 + s2 * x2 + sc * (u * u) + sc * (2 * u * clamped)) by (nonlinear_arith)
            requires
                t == 2 * sensitivity * cap * (d_high - d_low) + sc * (u * u + 2 * u * clamped),
                s2 == 2 * sensitivity,
                x1 == d_low * (-cap),
                x2 == d_high * cap,
        ;
        assert(-(6 * sensitivity * sc + 2 * sc * sc) < w - t < 6 * sensitivity * sc + 2 * sc * sc);
        assert(s2 * sc * sc * v == sc * w) by (nonlinear_arith)
            requires
                w == s2 * sc * v,
        ;
        assert(abs(s2 * sc * sc * v - sc * t) < 8 * sensitivity * sc * sc) by (nonlinear_arith)
            requires
                s2 * sc * sc * v == sc * w,
                -(6 * sensitivity * sc + 2 * sc * sc) < w - t < 6 * sensitivity * sc + 2 * sc * sc,
                sensitivity >= sc,
                sc > 0,
        ;
    }
}

} // verus!
