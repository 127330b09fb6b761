//! Funding and borrow fee rates, the payments derived from them, and their
//! capping by a position's liquidation margin.
use crate::capping::{aggregate_capping, capped_amount_spec, is_capped_spec, AggregateCapping};
use crate::config::Config;
use crate::error::PerpError;
use crate::number::{
    abs, checked, in_range, lemma_trunc_div_close, lemma_trunc_mul_close, lemma_trunc_mul_monotone, lemma_trunc_signs, max_int, min_int, oadd, odiv, omax, omin,
    omul, opt_view, osub, scale, trunc_div, trunc_mul, Number,
};
use crate::price::PricePoint;
use vstd::prelude::*;

verus! {

/// Nanoseconds in a (365-day) year.
pub const NS_PER_YEAR: u64 = 31_536_000_000_000_000u64;

/// Nanoseconds in a day.
pub const NS_PER_DAY: u64 = 86_400_000_000_000u64;

fn lift(o: Option<Number>) -> (r: Result<Number, PerpError>)
    ensures
        match o {
            Some(v) => r == Ok::<Number, PerpError>(v),
            None => r == Err::<Number, PerpError>(PerpError::Arithmetic),
        },
{
    match o {
        Some(v) => Ok(v),
        None => Err(PerpError::Arithmetic),
    }
}

/// A pair of LP and xLP amounts.
#[derive(Clone, Copy, Debug, PartialEq, Eq, Structural)]
pub struct LpAndXlp {
    pub lp: Number,
    pub xlp: Number,
}

impl LpAndXlp {
    /// Both amounts zero.
    pub fn zero() -> (r: LpAndXlp)
        ensures
            r.lp@ == 0,
            r.xlp@ == 0,
    {
        LpAndXlp { lp: Number::zero(), xlp: Number::zero() }
    }
}

/// Annualized borrow fee rates paid to LP and xLP holders.
#[derive(Clone, Copy, Debug, PartialEq, Eq, Structural)]
pub struct BorrowFees {
    pub lp: Number,
    pub xlp: Number,
}

/// The xLP rewards multiplier: the average of the minimum and maximum
/// multipliers weighted by the opposite token totals,
/// `(min * xlp + max * lp) / (lp + xlp)`.
pub open spec fn spec_calc_multiplier(min: int, max: int, total_lp: int, total_xlp: int) -> Option<int> {
    odiv(
        oadd(omul(Some(min), Some(total_xlp)), omul(Some(max), Some(total_lp))),
        oadd(Some(total_lp), Some(total_xlp)),
    )
}

/// Calculates the multiplier of xLP versus LP rewards, by linear
/// interpolation between the minimum (all liquidity is xLP) and the maximum
/// (all liquidity is LP).
pub fn calc_multiplier(
    min_multiplier: Number,
    max_multiplier: Number,
    total_lp: Number,
    total_xlp: Number,
) -> (r: Result<Number, PerpError>)
    requires
        total_lp@ >= 0,
        total_xlp@ >= 0,
        total_lp@ + total_xlp@ > 0,
    ensures
        match spec_calc_multiplier(min_multiplier@, max_multiplier@, total_lp@, total_xlp@) {
            Some(v) => r matches Ok(x) && x@ == v,
            None => r == Err::<Number, PerpError>(PerpError::Arithmetic),
        },
{
    let a = lift(min_multiplier.checked_mul(&total_xlp))?;
    let b = lift(max_multiplier.checked_mul(&total_lp))?;
    let sum = lift(a.checked_add(&b))?;
    let total = lift(total_lp.checked_add(&total_xlp))?;
    lift(sum.checked_div(&total))
}

/// The multiplier lies between the minimum and maximum multipliers (in
/// exact arithmetic).
pub proof fn lemma_multiplier_between(min: int, max: int, total_lp: int, total_xlp: int)
    requires
        0 <= min <= max,
        total_lp >= 0,
        total_xlp >= 0,
        total_lp + total_xlp > 0,
    ensures
        min * (total_lp + total_xlp) <= min * total_xlp + max * total_lp <= max * (total_lp + total_xlp),
{
    assert(min * total_lp <= max * total_lp) by (nonlinear_arith)
        requires
            min <= max,
            total_lp >= 0,
    ;
    assert(min * total_xlp <= max * total_xlp) by (nonlinear_arith)
        requires
            min <= max,
            total_xlp >= 0,
    ;
    assert(min * (total_lp + total_xlp) == min * total_lp + min * total_xlp) by (nonlinear_arith);
    assert(max * (total_lp + total_xlp) == max * total_lp + max * total_xlp) by (nonlinear_arith);
}

/// The popular side's funding rate: the effective sensitivity times the
/// share of open interest that is net, capped at the maximum rate.
pub open spec fn spec_rf_popular(effective_sensitivity: int, net_abs: int, total: int, cap: int) -> Option<int> {
    omin(omul(Some(effective_sensitivity), odiv(Some(net_abs), Some(total))), Some(cap))
}

/// The long and short funding rates for open interests `long` and `short`
/// (atom counts, non-negative): the popular side pays the popular rate and
/// the unpopular side receives it scaled by the ratio of the interests;
/// no one pays when either side is empty or the sides are equal.
pub open spec fn spec_funding_rates(config: Config, long: int, short: int) -> Option<(int, int)> {
    let total = checked(long + short);
    let high_cap = omul(Some(config.delta_neutrality_fee_sensitivity@), Some(config.delta_neutrality_fee_cap@));
    let from_dnf = odiv(omul(Some(config.funding_rate_max_annualized@), total), high_cap);
    match (total, from_dnf) {
        (Some(total), Some(from_dnf)) => {
            let effective = max_int(config.funding_rate_sensitivity@, from_dnf);
            let cap = config.funding_rate_max_annualized@;
            if long == 0 || short == 0 || long == short {
                Some((0, 0))
            } else {
                let popular = spec_rf_popular(effective, abs(long - short), total, cap);
                if long > short {
                    match (popular, omul(popular, odiv(Some(long), Some(short)))) {
                        (Some(p), Some(u)) => Some((p, -u)),
                        _ => None,
                    }
                } else {
                    match (popular, omul(popular, odiv(Some(short), Some(long)))) {
                        (Some(p), Some(u)) => Some((-u, p)),
                        _ => None,
                    }
                }
            }
        },
        _ => None,
    }
}

/// Derives the instantaneous annualized (long, short) funding rates from the
/// open interest of each side.
///
/// The sensitivity used is the larger of the configured one and the one
/// implied by the delta neutrality cap, `max_rate * total_interest /
/// (dnf_sensitivity * dnf_cap)`.
pub fn derive_instant_funding_rate_annual(config: &Config, long: Number, short: Number) -> (r: Result<(Number, Number), PerpError>)
    requires
        long@ >= 0,
        short@ >= 0,
    ensures
        match spec_funding_rates(*config, long@, short@) {
            Some((l, s)) => r matches Ok((x, y)) && x@ == l && y@ == s,
            None => r == Err::<(Number, Number), PerpError>(PerpError::Arithmetic),
        },
        // Funding paid equals funding received, up to rounding.
        config.wf() ==> (r matches Ok((l, s)) ==> {
            &&& long@ > short@ > 0 ==> l@ >= 0 && funding_balanced(l@, long@, -s@, short@)
            &&& short@ > long@ > 0 ==> s@ >= 0 && funding_balanced(s@, short@, -l@, long@)
            &&& long@ > short@ ==> l@ <= config.funding_rate_max_annualized@
            &&& short@ > long@ ==> s@ <= config.funding_rate_max_annualized@
            &&& (long@ == 0 || short@ == 0 || long@ == short@) ==> l@ == 0 && s@ == 0
            &&& long@ > 0 && short@ > 0 && long@ != short@ ==> ({
                let p = if long@ > short@ { l@ } else { s@ };
                let cap = config.funding_rate_max_annualized@;
                &&& p >= min_int(trunc_mul(config.funding_rate_sensitivity@, net_share(long@, short@)), cap)
                &&& p >= min_int(
                    trunc_mul(dnf_implied_sensitivity(*config, long@, short@), net_share(long@, short@)),
                    cap,
                )
            })
        }),
{
    proof {
        if config.wf() && spec_funding_rates(*config, long@, short@) is Some {
            lemma_funding_paid_equals_received(*config, long@, short@);
            if long@ > 0 && short@ > 0 && long@ != short@ {
                lemma_funding_rate_follows_sensitivity(*config, long@, short@);
            }
        }
    }
    long.range_fact();
    short.range_fact();
    let total = lift(long.checked_add(&short))?;
    let high_cap = lift(config.delta_neutrality_fee_sensitivity.checked_mul(&config.delta_neutrality_fee_cap))?;
    let scaled = lift(config.funding_rate_max_annualized.checked_mul(&total))?;
    let from_dnf = lift(scaled.checked_div(&high_cap))?;
    let effective = config.funding_rate_sensitivity.max(&from_dnf);
    let cap = config.funding_rate_max_annualized;
    if long.is_zero() || short.is_zero() || long.eq(&short) {
        return Ok((Number::zero(), Number::zero()));
    }
    let net = lift(long.checked_sub(&short))?;
    let share = lift(net.abs().checked_div(&total))?;
    let popular = lift(effective.checked_mul(&share))?.min(&cap);
    if short.lt(&long) {
        let ratio = lift(long.checked_div(&short))?;
        let unpopular = lift(popular.checked_mul(&ratio))?;
        Ok((popular, unpopular.neg()))
    } else {
        let ratio = lift(short.checked_div(&long))?;
        let unpopular = lift(popular.checked_mul(&ratio))?;
        Ok((unpopular.neg(), popular))
    }
}

/// The popular side pays and the unpopular side receives, at rates of the
/// same magnitude order: the side with more open interest has a
/// non-negative rate and the other a non-positive one.
pub proof fn lemma_funding_rate_signs(config: Config, long: int, short: int)
    requires
        config.wf(),
        long >= 0,
        short >= 0,
        spec_funding_rates(config, long, short) is Some,
    ensures
        ({
            let (l, s) = spec_funding_rates(config, long, short)->Some_0;
            &&& long > short ==> l >= 0 && s <= 0
            &&& short > long ==> s >= 0 && l <= 0
            &&& long == short ==> l == 0 && s == 0
        }),
{
    let total = long + short;
    let high_cap = trunc_mul(config.delta_neutrality_fee_sensitivity@, config.delta_neutrality_fee_cap@);
    if long != 0 && short != 0 && long != short {
        let from_dnf = trunc_div(trunc_mul(config.funding_rate_max_annualized@, total), high_cap);
        assert(trunc_mul(config.funding_rate_max_annualized@, total) >= 0) by (nonlinear_arith)
            requires
                config.funding_rate_max_annualized@ >= 0,
                total >= 0,
        ;
        assert(high_cap >= 0) by (nonlinear_arith)
            requires
                config.delta_neutrality_fee_sensitivity@ > 0,
                config.delta_neutrality_fee_cap@ > 0,
                high_cap == trunc_mul(config.delta_neutrality_fee_sensitivity@, config.delta_neutrality_fee_cap@),
        ;
        let effective = max_int(config.funding_rate_sensitivity@, from_dnf);
        let net_abs = abs(long - short);
        let share = trunc_div(net_abs, total);
        assert(share >= 0) by (nonlinear_arith)
            requires
                net_abs >= 0,
                total > 0,
                share == trunc_div(net_abs, total),
        ;
        assert(trunc_mul(effective, share) >= 0) by (nonlinear_arith)
            requires
                effective >= 0,
                share >= 0,
        ;
        if long > short {
            let ratio = trunc_div(long, short);
            assert(ratio >= 0) by (nonlinear_arith)
                requires
                    long >= 0,
                    short > 0,
                    ratio == trunc_div(long, short),
            ;
            let p = min_int(trunc_mul(effective, share), config.funding_rate_max_annualized@);
            assert(trunc_mul(p, ratio) >= 0) by (nonlinear_arith)
                requires
                    p >= 0,
                    ratio >= 0,
            ;
        } else {
            let ratio = trunc_div(short, long);
            assert(ratio >= 0) by (nonlinear_arith)
                requires
                    short >= 0,
                    long > 0,
                    ratio == trunc_div(short, long),
            ;
            let p = min_int(trunc_mul(effective, share), config.funding_rate_max_annualized@);
            assert(trunc_mul(p, ratio) >= 0) by (nonlinear_arith)
                requires
                    p >= 0,
                    ratio >= 0,
            ;
        }
    }
}


/// The popular side's payments at rate `paid` on interest `popular` fund
/// the unpopular side's receipts at rate `received` on interest
/// `unpopular`, up to rounding: the two (rate times interest, scaled by
/// `scale()`) differ by less than `(paid + scale()) * unpopular`.
pub open spec fn funding_balanced(paid: int, popular: int, received: int, unpopular: int) -> bool {
    abs(received * unpopular * scale() - paid * popular * scale()) < (paid + scale()) * unpopular
}

/// Funding paid equals funding received: when both sides are open and
/// unequal, the popular side pays a non-negative rate and the unpopular
/// side receives that rate scaled by the ratio of the larger open interest
/// to the smaller, so that the popular rate times the popular interest is
/// the unpopular rate times the unpopular interest, up to rounding.
pub proof fn lemma_funding_paid_equals_received(config: Config, long: int, short: int)
    requires
        config.wf(),
        long >= 0,
        short >= 0,
        spec_funding_rates(config, long, short) is Some,
    ensures
        ({
            let (l, s) = spec_funding_rates(config, long, short)->Some_0;
            &&& long > short > 0 ==> l >= 0 && funding_balanced(l, long, -s, short)
            &&& short > long > 0 ==> s >= 0 && funding_balanced(s, short, -l, long)
            &&& long > short ==> l <= config.funding_rate_max_annualized@
            &&& short > long ==> s <= config.funding_rate_max_annualized@
            &&& (long == 0 || short == 0 || long == short) ==> l == 0 && s == 0
        }),
{
    lemma_funding_rate_signs(config, long, short);
    let (l, s) = spec_funding_rates(config, long, short)->Some_0;
    let sc = scale();
    if long > short > 0 {
        let r = trunc_div(long, short);
        lemma_trunc_div_close(long, short);
        lemma_trunc_mul_close(l, r);
        let u = trunc_mul(l, r);
        assert(u == -s);
        lemma_balance(l, long, r, u, short);
    } else if short > long > 0 {
        let r = trunc_div(short, long);
        lemma_trunc_div_close(short, long);
        lemma_trunc_mul_close(s, r);
        let u = trunc_mul(s, r);
        assert(u == -l);
        lemma_balance(s, short, r, u, long);
    }
}

/// The share of open interest that is net: `|long - short| / (long + short)`.
pub open spec fn net_share(long: int, short: int) -> int {
    trunc_div(abs(long - short), long + short)
}

/// The funding sensitivity implied by the delta neutrality cap:
/// `max_rate * (long + short) / (dnf_sensitivity * dnf_cap)`.
pub open spec fn dnf_implied_sensitivity(config: Config, long: int, short: int) -> int {
    trunc_div(
        trunc_mul(config.funding_rate_max_annualized@, long + short),
        trunc_mul(config.delta_neutrality_fee_sensitivity@, config.delta_neutrality_fee_cap@),
    )
}

/// The popular side pays at least each sensitivity times the net share of
/// open interest (up to the maximum rate): the configured sensitivity and
/// the one implied by the delta neutrality cap.
pub proof fn lemma_funding_rate_follows_sensitivity(config: Config, long: int, short: int)
    requires
        config.wf(),
        long > 0,
        short > 0,
        long != short,
        spec_funding_rates(config, long, short) is Some,
    ensures
        ({
            let (l, s) = spec_funding_rates(config, long, short)->Some_0;
            let p = if long > short { l } else { s };
            let cap = config.funding_rate_max_annualized@;
            &&& p >= min_int(trunc_mul(config.funding_rate_sensitivity@, net_share(long, short)), cap)
            &&& p >= min_int(trunc_mul(dnf_implied_sensitivity(config, long, short), net_share(long, short)), cap)
        }),
{
    let total = long + short;
    let share = net_share(long, short);
    lemma_trunc_signs(abs(long - short), total);
    let hc = trunc_mul(config.delta_neutrality_fee_sensitivity@, config.delta_neutrality_fee_cap@);
    lemma_trunc_signs(config.delta_neutrality_fee_sensitivity@, config.delta_neutrality_fee_cap@);
    lemma_trunc_signs(config.funding_rate_max_annualized@, total);
    let from_dnf = dnf_implied_sensitivity(config, long, short);
    let effective = max_int(config.funding_rate_sensitivity@, from_dnf);
    if hc > 0 {
        lemma_trunc_signs(trunc_mul(config.funding_rate_max_annualized@, total), hc);
        lemma_trunc_mul_monotone(config.funding_rate_sensitivity@, effective, share);
        lemma_trunc_mul_monotone(from_dnf, effective, share);
    }
}

/// The rounding of `u = p * (a / b)` against `p * a / b`.
proof fn lemma_balance(p: int, a: int, r: int, u: int, b: int)
    requires
        p >= 0,
        b > 0,
        a * scale() - b < r * b < a * scale() + b,
        p * r - scale() < u * scale() < p * r + scale(),
    ensures
        funding_balanced(p, a, u, b),
{
    let sc = scale();
    let e1 = u * sc - p * r;
    let e2 = r * b - a * sc;
    assert(e1 * b == (u * sc) * b - (p * r) * b) by (nonlinear_arith)
        requires
            e1 == u * sc - p * r,
    ;
    assert(p * e2 == p * (r * b) - p * (a * sc)) by (nonlinear_arith)
        requires
            e2 == r * b - a * sc,
    ;
    assert((p * r) * b == p * (r * b)) by (nonlinear_arith);
    assert((u * sc) * b == u * b * sc) by (nonlinear_arith);
    assert(p * (a * sc) == p * a * sc) by (nonlinear_arith);
    assert(-(sc * b) < e1 * b < sc * b) by (nonlinear_arith)
        requires
            -sc < e1 < sc,
            b > 0,
    ;
    assert(-(p * b) <= p * e2 <= p * b) by (nonlinear_arith)
        requires
            -b < e2 < b,
            p >= 0,
    ;
    assert((p + sc) * b == p * b + sc * b) by (nonlinear_arith);
}

/// The borrow fee's bias: minus one when there is no liquidity at all,
/// otherwise the actual utilization `locked / (locked + unlocked)` minus
/// the target utilization.
pub open spec fn spec_borrow_bias(locked: int, unlocked: int, target: int) -> Option<int> {
    if locked == 0 && unlocked == 0 {
        Some(-scale())
    } else {
        osub(odiv(Some(locked), checked(locked + unlocked)), Some(target))
    }
}

/// The new total annualized borrow rate: the previous total moved by
/// `sensitivity * bias * elapsed / day`, clamped to the configured bounds
/// (the minimum when the moved rate is not strictly positive).
pub open spec fn spec_total_borrow_rate(config: Config, previous_total: int, bias: int, nanos: int) -> Option<int> {
    let delta = odiv(
        omul(omul(Some(config.borrow_fee_sensitivity@), Some(bias)), Some(nanos * scale())),
        Some(NS_PER_DAY * scale()),
    );
    match oadd(Some(previous_total), delta) {
        None => None,
        Some(calculated) => Some(
            if calculated > 0 {
                min_int(
                    max_int(calculated, config.borrow_fee_rate_min_annualized@),
                    config.borrow_fee_rate_max_annualized@,
                )
            } else {
                config.borrow_fee_rate_min_annualized@
            },
        ),
    }
}

/// Splits the total borrow rate between LP and xLP: all to LP when there is
/// no xLP, all to xLP when there is no LP, otherwise in proportion to the
/// LP tokens and the xLP tokens weighted by the rewards multiplier, with
/// xLP getting the remainder.
pub open spec fn spec_split_borrow_rate(config: Config, total_rate: int, total_lp: int, total_xlp: int) -> Option<(int, int)> {
    if total_xlp == 0 {
        Some((total_rate, 0))
    } else if total_lp == 0 {
        Some((0, total_rate))
    } else {
        let multiplier = spec_calc_multiplier(
            config.min_xlp_rewards_multiplier@,
            config.max_xlp_rewards_multiplier@,
            total_lp,
            total_xlp,
        );
        let xlp_shares = omul(Some(total_xlp), multiplier);
        let shares = oadd(Some(total_lp), xlp_shares);
        let lp = odiv(omul(Some(total_rate), Some(total_lp)), shares);
        match (lp, osub(Some(total_rate), lp)) {
            (Some(l), Some(x)) => if x >= 0 {
                Some((l, x))
            } else {
                None
            },
            _ => None,
        }
    }
}

/// The liquidity totals that the borrow fee depends on.
#[derive(Clone, Copy, Debug, PartialEq, Eq, Structural)]
pub struct LiquidityStats {
    /// Collateral locked by open positions.
    pub locked: Number,
    /// Collateral available for new positions.
    pub unlocked: Number,
    /// LP tokens outstanding.
    pub total_lp: Number,
    /// xLP tokens outstanding.
    pub total_xlp: Number,
}

impl LiquidityStats {
    pub open spec fn wf(&self) -> bool {
        self.locked@ >= 0 && self.unlocked@ >= 0 && self.total_lp@ >= 0 && self.total_xlp@ >= 0
    }
}

/// Nanoseconds from `previous` to `now`, or zero when `now` is not later.
pub open spec fn spec_elapsed(previous: u64, now: u64) -> int {
    if previous < now {
        now - previous
    } else {
        0
    }
}

/// Derives the instantaneous annualized borrow fee rates at time `now`
/// (nanoseconds) from the previous rates, set at `previous_time`, and the
/// liquidity totals.
pub fn derive_instant_borrow_fee_rate_annual(
    config: &Config,
    previous_time: u64,
    previous: BorrowFees,
    now: u64,
    stats: LiquidityStats,
) -> (r: Result<BorrowFees, PerpError>)
    requires
        config.wf(),
        stats.wf(),
    ensures
        ({
            let total = match spec_borrow_bias(stats.locked@, stats.unlocked@, config.target_utilization@) {
                None => None,
                Some(bias) => match checked(previous.lp@ + previous.xlp@) {
                    None => None,
                    Some(prev) => spec_total_borrow_rate(*config, prev, bias, spec_elapsed(previous_time, now)),
                },
            };
            match total {
                None => r == Err::<BorrowFees, PerpError>(PerpError::Arithmetic),
                Some(t) => match spec_split_borrow_rate(*config, t, stats.total_lp@, stats.total_xlp@) {
                    Some((l, x)) => r matches Ok(f) && f.lp@ == l && f.xlp@ == x,
                    None => r == Err::<BorrowFees, PerpError>(PerpError::Arithmetic),
                },
            }
        }),
        // The total rate moves toward the target utilization.
        r matches Ok(f) ==> ({
            let total = stats.locked@ + stats.unlocked@;
            let utilization_scaled = stats.locked@ * scale();
            let target = config.target_utilization@;
            let previous_total = previous.lp@ + previous.xlp@;
            &&& total > 0 && utilization_scaled < target * total ==> f.lp@ + f.xlp@ <= max_int(
                previous_total,
                config.borrow_fee_rate_min_annualized@,
            )
            &&& total > 0 && utilization_scaled > target * total ==> f.lp@ + f.xlp@ >= min_int(
                previous_total,
                config.borrow_fee_rate_max_annualized@,
            )
            // Within the configured bounds.
            &&& config.borrow_fee_rate_min_annualized@ <= f.lp@ + f.xlp@ <= config.borrow_fee_rate_max_annualized@
            // Without a push (no time elapsed, no sensitivity, or utilization
            // at the target), the previous total kept within bounds.
            &&& previous_total > 0 && (now <= previous_time || config.borrow_fee_sensitivity@ == 0 || (total > 0
                && utilization_scaled == target * total)) ==> f.lp@ + f.xlp@ == min_int(
                max_int(previous_total, config.borrow_fee_rate_min_annualized@),
                config.borrow_fee_rate_max_annualized@,
            )
        }),
{
    proof {
        if stats.locked@ + stats.unlocked@ > 0 {
            lemma_borrow_rate_moves_toward_target(
                *config,
                stats.locked@,
                stats.unlocked@,
                previous.lp@ + previous.xlp@,
                spec_elapsed(previous_time, now),
            );
        }
        if let Some(bias) = spec_borrow_bias(stats.locked@, stats.unlocked@, config.target_utilization@) {
            if let Some(t) = spec_total_borrow_rate(*config, previous.lp@ + previous.xlp@, bias, spec_elapsed(previous_time, now)) {
                lemma_split_keeps_total(*config, t, stats.total_lp@, stats.total_xlp@);
                lemma_total_borrow_rate_bounded(*config, previous.lp@ + previous.xlp@, bias, spec_elapsed(previous_time, now));
                lemma_no_push_no_move(*config, previous.lp@ + previous.xlp@, bias, spec_elapsed(previous_time, now));
            }
        }
    }
    let nanos: u64 = if previous_time < now {
        now - previous_time
    } else {
        0
    };
    let bias = if stats.locked.is_zero() && stats.unlocked.is_zero() {
        Number::neg_one()
    } else {
        let total = lift(stats.locked.checked_add(&stats.unlocked))?;
        let utilization = lift(stats.locked.checked_div(&total))?;
        lift(utilization.checked_sub(&config.target_utilization))?
    };
    let previous_total = lift(previous.lp.checked_add(&previous.xlp))?;
    let scaled = lift(config.borrow_fee_sensitivity.checked_mul(&bias))?;
    let scaled = lift(scaled.checked_mul(&Number::from_u64(nanos)))?;
    let delta = lift(scaled.checked_div(&Number::from_u64(NS_PER_DAY)))?;
    let calculated = lift(previous_total.checked_add(&delta))?;
    let total_rate = if calculated.is_strictly_positive() {
        calculated.max(&config.borrow_fee_rate_min_annualized).min(&config.borrow_fee_rate_max_annualized)
    } else {
        config.borrow_fee_rate_min_annualized
    };
    if stats.total_xlp.is_zero() {
        Ok(BorrowFees { lp: total_rate, xlp: Number::zero() })
    } else if stats.total_lp.is_zero() {
        Ok(BorrowFees { lp: Number::zero(), xlp: total_rate })
    } else {
        let multiplier = calc_multiplier(
            config.min_xlp_rewards_multiplier,
            config.max_xlp_rewards_multiplier,
            stats.total_lp,
            stats.total_xlp,
        )?;
        let xlp_shares = lift(stats.total_xlp.checked_mul(&multiplier))?;
        let shares = lift(stats.total_lp.checked_add(&xlp_shares))?;
        let lp = lift(lift(total_rate.checked_mul(&stats.total_lp))?.checked_div(&shares))?;
        let xlp = lift(total_rate.checked_sub(&lp))?;
        if xlp.is_negative() {
            return Err(PerpError::Arithmetic);
        }
        Ok(BorrowFees { lp, xlp })
    }
}


/// The borrow rate moves toward the target utilization: when the actual
/// utilization `locked / (locked + unlocked)` is below the target, the new
/// total rate is no higher than the previous total (or the minimum rate,
/// when that is higher); when it is above the target, no lower than the
/// previous total (or the maximum rate, when that is lower).
pub proof fn lemma_borrow_rate_moves_toward_target(
    config: Config,
    locked: int,
    unlocked: int,
    previous_total: int,
    nanos: int,
)
    requires
        config.wf(),
        locked >= 0,
        unlocked >= 0,
        locked + unlocked > 0,
        nanos >= 0,
    ensures
        spec_borrow_bias(locked, unlocked, config.target_utilization@) matches Some(bias) ==> (spec_total_borrow_rate(
            config,
            previous_total,
            bias,
            nanos,
        ) matches Some(t) ==> {
            &&& locked * scale() < config.target_utilization@ * (locked + unlocked) ==> t <= max_int(
                previous_total,
                config.borrow_fee_rate_min_annualized@,
            )
            &&& locked * scale() > config.target_utilization@ * (locked + unlocked) ==> t >= min_int(
                previous_total,
                config.borrow_fee_rate_max_annualized@,
            )
        }),
        locked * scale() == config.target_utilization@ * (locked + unlocked) ==> (spec_borrow_bias(
            locked,
            unlocked,
            config.target_utilization@,
        ) matches Some(b) ==> b == 0),
{
    let sc = scale();
    let total = locked + unlocked;
    let target = config.target_utilization@;
    let u = trunc_div(locked, total);
    let q = locked * sc;
    assert(q >= 0) by (nonlinear_arith)
        requires
            locked >= 0,
            sc > 0,
            q == locked * sc,
    ;
    vstd::arithmetic::div_mod::lemma_fundamental_div_mod(q, total);
    vstd::arithmetic::div_mod::lemma_mod_bound(q, total);
    assert(u == q / total);
    // The truncated utilization is below the target exactly when the exact
    // one is, and at least the target when the exact one is above.
    if q < target * total {
        assert(u < target) by (nonlinear_arith)
            requires
                q == total * u + q % total,
                q % total >= 0,
                q < target * total,
                total > 0,
        ;
    }
    if q == target * total {
        assert(u == target) by (nonlinear_arith)
            requires
                q == total * u + q % total,
                0 <= q % total < total,
                q == target * total,
                total > 0,
        ;
    }
    if q > target * total {
        assert(u >= target) by (nonlinear_arith)
            requires
                q == total * u + q % total,
                q % total < total,
                q > target * total,
                total > 0,
        ;
    }
    if let Some(bias) = spec_borrow_bias(locked, unlocked, target) {
        let sens = config.borrow_fee_sensitivity@;
        let m1 = trunc_mul(sens, bias);
        lemma_trunc_signs(sens, bias);
        let step = nanos * sc;
        assert(step >= 0) by (nonlinear_arith)
            requires
                nanos >= 0,
                sc > 0,
                step == nanos * sc,
        ;
        let m2 = trunc_mul(m1, step);
        lemma_trunc_signs(m1, step);
        let day = NS_PER_DAY * sc;
        lemma_trunc_signs(m2, day);
    }
}

/// The total rate does not move without a push: with no time elapsed, no
/// sensitivity, or utilization exactly at the target (no bias), it is the
/// previous total, kept within the configured bounds.
pub proof fn lemma_no_push_no_move(config: Config, previous_total: int, bias: int, nanos: int)
    ensures
        previous_total > 0 && (nanos == 0 || config.borrow_fee_sensitivity@ == 0 || bias == 0) ==> (
        spec_total_borrow_rate(config, previous_total, bias, nanos) matches Some(t) ==> t == min_int(
            max_int(previous_total, config.borrow_fee_rate_min_annualized@),
            config.borrow_fee_rate_max_annualized@,
        )),
{
    let sens = config.borrow_fee_sensitivity@;
    let m = trunc_mul(sens, bias);
    if sens == 0 || bias == 0 {
        assert(abs(sens) * abs(bias) == 0) by (nonlinear_arith)
            requires
                sens == 0 || bias == 0,
                abs(sens) == (if sens < 0 { -sens } else { sens }),
                abs(bias) == (if bias < 0 { -bias } else { bias }),
        ;
        assert(m == 0);
        assert(abs(0int) * abs(nanos * scale()) == 0) by (nonlinear_arith);
        assert(trunc_mul(0, nanos * scale()) == 0);
    }
    if nanos == 0 {
        assert(abs(m) * abs(0int) == 0) by (nonlinear_arith);
        assert(nanos * scale() == 0);
        assert(trunc_mul(m, 0) == 0);
    }
    assert(abs(0int) * scale() == 0);
    assert(trunc_div(0, NS_PER_DAY * scale()) == 0);
}

/// Splitting the total borrow rate between LP and xLP keeps its total.
pub proof fn lemma_split_keeps_total(config: Config, total_rate: int, total_lp: int, total_xlp: int)
    ensures
        spec_split_borrow_rate(config, total_rate, total_lp, total_xlp) matches Some((l, x)) ==> l + x == total_rate,
{
}

/// The total borrow rate stays within the configured bounds.
pub proof fn lemma_total_borrow_rate_bounded(config: Config, previous_total: int, bias: int, nanos: int)
    requires
        config.wf(),
        spec_total_borrow_rate(config, previous_total, bias, nanos) is Some,
    ensures
        config.borrow_fee_rate_min_annualized@ <= spec_total_borrow_rate(config, previous_total, bias, nanos)->Some_0
            <= config.borrow_fee_rate_max_annualized@,
{
}

/// The funding payment over a period: the sum of rate times price over the
/// period, times the position's notional size, per year. An unavailable sum
/// counts as zero.
pub open spec fn spec_funding_payment(rate_price_sum: Option<int>, notional_size: int) -> Option<int> {
    let sum = match rate_price_sum {
        Some(s) => s,
        None => 0,
    };
    odiv(omul(Some(sum), Some(abs(notional_size))), Some(NS_PER_YEAR * scale()))
}

/// Calculates a position's funding payment (positive: paid by the
/// position) from the sum of `rate * price` over the period, if available.
pub fn calculate_funding_payment(rate_price_sum: Option<Number>, notional_size: Number) -> (r: Result<Number, PerpError>)
    ensures
        match spec_funding_payment(opt_view(rate_price_sum), notional_size@) {
            Some(v) => r matches Ok(x) && x@ == v,
            None => r == Err::<Number, PerpError>(PerpError::Arithmetic),
        },
{
    let sum = match rate_price_sum {
        Some(s) => s,
        None => Number::zero(),
    };
    let product = lift(sum.checked_mul(&notional_size.abs()))?;
    lift(product.checked_div(&Number::from_u64(NS_PER_YEAR)))
}

/// One side's borrow fee payment: the rate sum times the counter
/// collateral, per year; it may not be negative.
pub open spec fn spec_borrow_payment(rate_sum: int, counter_collateral: int) -> Option<int> {
    match odiv(omul(Some(rate_sum), Some(counter_collateral)), Some(NS_PER_YEAR * scale())) {
        Some(v) => if v >= 0 {
            Some(v)
        } else {
            None
        },
        None => None,
    }
}

/// Calculates a position's borrow fee payment to LP and xLP holders from the
/// sums of their rates over the period and the position's counter
/// collateral.
pub fn calculate_borrow_fee_payment(lp_rate_sum: Number, xlp_rate_sum: Number, counter_collateral: Number) -> (r: Result<LpAndXlp, PerpError>)
    ensures
        match (spec_borrow_payment(lp_rate_sum@, counter_collateral@), spec_borrow_payment(xlp_rate_sum@, counter_collateral@)) {
            (Some(l), Some(x)) => r matches Ok(p) && p.lp@ == l && p.xlp@ == x,
            _ => r == Err::<LpAndXlp, PerpError>(PerpError::Arithmetic),
        },
{
    let year = Number::from_u64(NS_PER_YEAR);
    let lp = lift(lift(lp_rate_sum.checked_mul(&counter_collateral))?.checked_div(&year))?;
    if lp.is_negative() {
        return Err(PerpError::Arithmetic);
    }
    let xlp = lift(lift(xlp_rate_sum.checked_mul(&counter_collateral))?.checked_div(&year))?;
    if xlp.is_negative() {
        return Err(PerpError::Arithmetic);
    }
    Ok(LpAndXlp { lp, xlp })
}

/// Which fee a position could not fully cover.
#[derive(Clone, Copy, Debug, PartialEq, Eq, Structural)]
pub enum FeeType {
    Borrow,
    Funding,
    FundingTotal,
    Crank,
    DeltaNeutrality,
    Overall,
}

/// Reported when a fee is capped by the margin set aside for it.
#[derive(Clone, Copy, Debug, PartialEq, Eq, Structural)]
pub struct InsufficientMarginEvent {
    /// The position whose fee was capped.
    pub pos: u64,
    pub fee_type: FeeType,
    pub available: Number,
    pub requested: Number,
    /// The protocol's figures, when the protocol's funding totals (rather
    /// than the position's own margin) capped the payment.
    pub desc: Option<FundingTotalShortfall>,
}

/// The figures reported when the protocol's funding totals cap a payment:
/// what had been paid in net and the total margin before it, the amount
/// requested, and the position's funding margin.
#[derive(Clone, Copy, Debug, PartialEq, Eq, Structural)]
pub struct FundingTotalShortfall {
    pub total_paid: Number,
    pub total_margin: Number,
    pub requested: Number,
    pub funding_margin: Number,
}

/// Caps a borrow fee payment at the position's borrow margin `cap`: when
/// the total exceeds the cap, the LP part is scaled by `cap / total` and the
/// xLP part is the rest of the cap.
pub fn calc_capped_borrow_fee_payment(pos_id: u64, uncapped: LpAndXlp, cap: Number) -> (r: Result<(LpAndXlp, Option<InsufficientMarginEvent>), PerpError>)
    requires
        uncapped.lp@ >= 0,
        uncapped.xlp@ >= 0,
        cap@ >= 0,
    ensures
        ({
            let total = uncapped.lp@ + uncapped.xlp@;
            if !in_range(total) {
                r == Err::<(LpAndXlp, Option<InsufficientMarginEvent>), PerpError>(PerpError::Arithmetic)
            } else if total == 0 || total <= cap@ {
                r == Ok::<(LpAndXlp, Option<InsufficientMarginEvent>), PerpError>((uncapped, None))
            } else {
                match omul(Some(uncapped.lp@), odiv(Some(cap@), Some(total))) {
                    Some(l) => if cap@ - l >= 0 {
                        r matches Ok((p, Some(e))) && p.lp@ == l && p.xlp@ == cap@ - l && e.fee_type == FeeType::Borrow
                            && e.available == cap && e.requested@ == total && e.pos == pos_id && e.desc is None
                    } else {
                        r == Err::<(LpAndXlp, Option<InsufficientMarginEvent>), PerpError>(PerpError::Arithmetic)
                    },
                    None => r == Err::<(LpAndXlp, Option<InsufficientMarginEvent>), PerpError>(PerpError::Arithmetic),
                }
            }
        }),
        // A capped payment totals exactly the cap.
        r matches Ok((p, Some(e))) ==> p.lp@ + p.xlp@ == cap@,
{
    cap.range_fact();
    let total = lift(uncapped.lp.checked_add(&uncapped.xlp))?;
    if total.is_zero() || total.le(&cap) {
        return Ok((uncapped, None));
    }
    let scale = lift(cap.checked_div(&total))?;
    let lp = lift(uncapped.lp.checked_mul(&scale))?;
    let xlp = lift(cap.checked_sub(&lp))?;
    if xlp.is_negative() {
        return Err(PerpError::Arithmetic);
    }
    Ok(
        (
            LpAndXlp { lp, xlp },
            Some(InsufficientMarginEvent { pos: pos_id, fee_type: FeeType::Borrow, available: cap, requested: total, desc: None }),
        ),
    )
}

/// Caps a funding payment at the position's funding margin `cap`; payments
/// to the position (zero or negative) are never capped.
pub fn calc_capped_funding_payment(pos_id: u64, uncapped: Number, cap: Number) -> (r: (Number, Option<InsufficientMarginEvent>))
    requires
        cap@ >= 0,
    ensures
        uncapped@ <= cap@ ==> r == (uncapped, None::<InsufficientMarginEvent>),
        uncapped@ > cap@ ==> r == (cap, Some(
            InsufficientMarginEvent { pos: pos_id, fee_type: FeeType::Funding, available: cap, requested: uncapped, desc: None },
        )),
{
    if !uncapped.is_strictly_positive() || uncapped.le(&cap) {
        (uncapped, None)
    } else {
        (cap, Some(InsufficientMarginEvent { pos: pos_id, fee_type: FeeType::Funding, available: cap, requested: uncapped, desc: None }))
    }
}

/// A crank fee after capping.
#[derive(Clone, Copy, Debug, PartialEq, Eq, Structural)]
pub struct CapCrankFee {
    /// Collateral charged.
    pub amount: Number,
    /// Its value in USD.
    pub amount_usd: Number,
    pub insufficient_margin_event: Option<InsufficientMarginEvent>,
}

/// Caps the crank fee, given in USD, at the position's crank margin `cap`
/// (collateral): the fee is converted to collateral and, when it exceeds
/// the cap, the cap is charged instead (with its USD value).
pub fn cap_crank_fee(pos_id: u64, price: &PricePoint, uncapped_usd: Number, cap: Number) -> (r: Result<CapCrankFee, PerpError>)
    requires
        price.wf(),
        uncapped_usd@ >= 0,
        cap@ >= 0,
    ensures
        match price.spec_usd_to_collateral(uncapped_usd@) {
            None => r == Err::<CapCrankFee, PerpError>(PerpError::Arithmetic),
            Some(c) => if c <= cap@ {
                r matches Ok(f) && f.amount@ == c && f.amount_usd == uncapped_usd && f.insufficient_margin_event is None
            } else {
                match price.spec_collateral_to_usd(cap@) {
                    None => r == Err::<CapCrankFee, PerpError>(PerpError::Arithmetic),
                    Some(u) => r matches Ok(f) && f.amount == cap && f.amount_usd@ == u
                        && f.insufficient_margin_event == Some(
                        InsufficientMarginEvent { pos: pos_id, fee_type: FeeType::Crank, available: cap, requested: f.insufficient_margin_event->Some_0.requested, desc: None },
                    ) && f.insufficient_margin_event->Some_0.requested@ == c,
                }
            },
        },
{
    let uncapped = lift(price.usd_to_collateral(&uncapped_usd))?;
    if uncapped.is_zero() || uncapped.le(&cap) {
        return Ok(CapCrankFee { amount: uncapped, amount_usd: uncapped_usd, insufficient_margin_event: None });
    }
    let amount_usd = lift(price.collateral_to_usd(&cap))?;
    Ok(
        CapCrankFee {
            amount: cap,
            amount_usd,
            insufficient_margin_event: Some(
                InsufficientMarginEvent { pos: pos_id, fee_type: FeeType::Crank, available: cap, requested: uncapped, desc: None },
            ),
        },
    )
}


/// Protocol-wide funding totals.
///
/// `total_net_funding_paid` is positive when, in aggregate, more funding has
/// flowed into the market than out; `total_funding_margin` is the sum of the
/// funding margins of all open positions. The two are kept such that
/// `total_funding_margin + total_net_funding_paid >= 0` (up to rounding).
#[derive(Clone, Copy, Debug, PartialEq, Eq, Structural)]
pub struct FundingTotals {
    pub total_net_funding_paid: Number,
    pub total_funding_margin: Number,
}

/// A funding payment after protocol-level capping, ready to be applied.
#[derive(Clone, Copy, Debug, PartialEq, Eq, Structural)]
pub struct FundingFeePaymentWithCapping {
    /// The payment (positive: paid by the position).
    pub amount: Number,
    /// Present when the payment was capped; amounts are negated so that
    /// positive values flow out of the market.
    pub insufficient_margin_event: Option<InsufficientMarginEvent>,
    /// The market's net funding paid once this payment is applied.
    pub total_net_funding_paid: Number,
    /// The position's funding margin, for the invariant check.
    pub margin_to_check: Number,
}

/// The rounding tolerance of the funding invariant (`0.0000001`), in atoms.
pub open spec fn funding_epsilon() -> int {
    100_000_000_000
}

impl FundingTotals {
    pub open spec fn wf(&self) -> bool {
        self.total_funding_margin@ >= 0
    }

    /// The invariant, after taking `pos_margin` away from the total margin.
    pub open spec fn spec_invariant_holds(&self, pos_margin: int) -> bool {
        self.total_net_funding_paid@ + (self.total_funding_margin@ - pos_margin) + funding_epsilon() >= 0
    }

    /// Both totals start at zero.
    pub fn initialize_funding_totals() -> (r: FundingTotals)
        ensures
            r.total_net_funding_paid@ == 0,
            r.total_funding_margin@ == 0,
            r.wf(),
            r.spec_invariant_holds(0),
    {
        FundingTotals { total_net_funding_paid: Number::zero(), total_funding_margin: Number::zero() }
    }

    /// Adds a position's funding margin to the total.
    pub fn increase_total_funding_margin(&mut self, amount: Number) -> (r: Result<(), PerpError>)
        requires
            old(self).wf(),
            amount@ >= 0,
        ensures
            in_range(old(self).total_funding_margin@ + amount@) ==> r is Ok
                && final(self).total_funding_margin@ == old(self).total_funding_margin@ + amount@
                && final(self).total_net_funding_paid == old(self).total_net_funding_paid,
            !in_range(old(self).total_funding_margin@ + amount@) ==> r == Err::<(), PerpError>(
                PerpError::FundingMarginOutOfRange,
            ) && *final(self) == *old(self),
            final(self).wf(),
            // More margin keeps the invariant.
            old(self).spec_invariant_holds(0) ==> final(self).spec_invariant_holds(0),
    {
        match self.total_funding_margin.checked_add(&amount) {
            Some(v) => {
                self.total_funding_margin = v;
                Ok(())
            },
            None => Err(PerpError::FundingMarginOutOfRange),
        }
    }

    /// Takes a position's funding margin away from the total.
    pub fn decrease_total_funding_margin(&mut self, amount: Number) -> (r: Result<(), PerpError>)
        requires
            old(self).wf(),
            amount@ >= 0,
        ensures
            old(self).total_funding_margin@ >= amount@ ==> r is Ok
                && final(self).total_funding_margin@ == old(self).total_funding_margin@ - amount@
                && final(self).total_net_funding_paid == old(self).total_net_funding_paid,
            old(self).total_funding_margin@ < amount@ ==> r == Err::<(), PerpError>(
                PerpError::FundingMarginOutOfRange,
            ) && *final(self) == *old(self),
            final(self).wf(),
            // Taking a position's margin away keeps the invariant when it
            // held without that margin.
            old(self).spec_invariant_holds(amount@) ==> final(self).spec_invariant_holds(0),
    {
        self.total_funding_margin.range_fact();
        amount.range_fact();
        if self.total_funding_margin.lt(&amount) {
            return Err(PerpError::FundingMarginOutOfRange);
        }
        self.total_funding_margin = self.total_funding_margin.checked_sub(&amount).unwrap();
        Ok(())
    }

    /// Caps a funding payment of a position with funding margin
    /// `pos_margin` against the protocol totals (see
    /// [`aggregate_capping`]) and computes the net funding paid once it is
    /// applied.
    pub fn track_funding_fee_payment_with_capping(&self, pos_id: u64, amount: Number, pos_margin: Number) -> (r: Result<FundingFeePaymentWithCapping, PerpError>)
        requires
            self.wf(),
            pos_margin@ >= 0,
        ensures
            r matches Err(e) ==> (e == PerpError::Arithmetic || e == PerpError::TotalMarginBelowPositionMargin),
            r is Ok ==> self.total_funding_margin@ >= pos_margin@ && in_range(
                self.total_funding_margin@ - pos_margin@ + self.total_net_funding_paid@,
            ),
            self.total_funding_margin@ < pos_margin@ ==> r == Err::<FundingFeePaymentWithCapping, PerpError>(
                PerpError::TotalMarginBelowPositionMargin,
            ),
            r matches Ok(p) ==> p.amount@ == (if is_capped_spec(
                self.total_net_funding_paid@,
                self.total_funding_margin@,
                amount@,
                pos_margin@,
            ) {
                capped_amount_spec(self.total_net_funding_paid@, self.total_funding_margin@, amount@, pos_margin@)
            } else {
                amount@
            }),
            (self.total_funding_margin@ >= pos_margin@ && in_range(
                self.total_funding_margin@ - pos_margin@ + self.total_net_funding_paid@,
            )) ==> (r is Ok <==> in_range(self.total_net_funding_paid@ + (if is_capped_spec(
                self.total_net_funding_paid@,
                self.total_funding_margin@,
                amount@,
                pos_margin@,
            ) {
                capped_amount_spec(self.total_net_funding_paid@, self.total_funding_margin@, amount@, pos_margin@)
            } else {
                amount@
            }))),
            r matches Ok(p) ==> p.total_net_funding_paid@ == self.total_net_funding_paid@ + p.amount@
                && p.margin_to_check == pos_margin,
            r matches Ok(p) ==> (p.insufficient_margin_event is None <==> !is_capped_spec(
                self.total_net_funding_paid@,
                self.total_funding_margin@,
                amount@,
                pos_margin@,
            )),
            // Applying the payment keeps the protocol solvent unless the
            // position's whole margin is taken.
            r matches Ok(p) ==> (p.insufficient_margin_event is Some ==> (self.total_funding_margin@ - pos_margin@
                + p.total_net_funding_paid@ >= 0 || p.amount@ == pos_margin@)),
            // Applying the payment keeps the invariant, checked without the
            // position's margin, when it held before.
            r matches Ok(p) ==> (self.spec_invariant_holds(0) ==> p.total_net_funding_paid@ + (
            self.total_funding_margin@ - pos_margin@) + funding_epsilon() >= 0),
            // The event counts flows out of the protocol as positive, and
            // reports the protocol's figures.
            r matches Ok(p) ==> (p.insufficient_margin_event matches Some(e) ==> {
                &&& e.pos == pos_id
                &&& e.fee_type == FeeType::FundingTotal
                &&& e.available@ == -p.amount@
                &&& e.requested@ == -amount@
                &&& e.desc == Some(
                    FundingTotalShortfall {
                        total_paid: self.total_net_funding_paid,
                        total_margin: self.total_funding_margin,
                        requested: amount,
                        funding_margin: pos_margin,
                    },
                )
            }),
{
        let capping = aggregate_capping(self.total_net_funding_paid, self.total_funding_margin, amount, pos_margin)?;
        let (paid, event) = match capping {
            AggregateCapping::NoCapping => (amount, None),
            AggregateCapping::Capped { capped_amount } => (
                capped_amount,
                Some(
                    InsufficientMarginEvent {
                        pos: pos_id,
                        fee_type: FeeType::FundingTotal,
                        available: capped_amount.neg(),
                        requested: amount.neg(),
                        desc: Some(
                            FundingTotalShortfall {
                                total_paid: self.total_net_funding_paid,
                                total_margin: self.total_funding_margin,
                                requested: amount,
                                funding_margin: pos_margin,
                            },
                        ),
                    },
                ),
            ),
        };
        let total = lift(self.total_net_funding_paid.checked_add(&paid))?;
        Ok(
            FundingFeePaymentWithCapping {
                amount: paid,
                insufficient_margin_event: event,
                total_net_funding_paid: total,
                margin_to_check: pos_margin,
            },
        )
    }

    /// Records an applied funding payment.
    pub fn apply_funding_fee_payment(&mut self, payment: &FundingFeePaymentWithCapping)
        ensures
            final(self).total_net_funding_paid == payment.total_net_funding_paid,
            final(self).total_funding_margin == old(self).total_funding_margin,
    {
        self.total_net_funding_paid = payment.total_net_funding_paid;
    }
}

} // verus!
