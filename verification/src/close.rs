//! Closing a position: settling its collateral, paying its last delta
//! neutrality fee, giving back its open interest and its liquidity.
use crate::config::Config;
use crate::crank::LiquidationReason;
use crate::dnf::{
    charge_delta_neutrality_fee_no_update, charge_result_of, check_adjust_net_open_interest, spec_adjust_open_interest,
    spec_charge, AdjustOpenInterestResult, ChargeDeltaNeutralityFeeResult, DeltaNeutralityFeeReason,
};
use crate::error::PerpError;
use crate::funding::LiquidityStats;
use crate::lock::{liquidity_unlock, liquidity_update_locked, spec_liquidity_unlock, spec_liquidity_update_locked};
use crate::number::{checked, in_range, max_int, number_of, Number};
use crate::position::{FeeAccount, LiquidationMargin};
use crate::price::{spec_into_base, DirectionToBase, DirectionToNotional, MarketType, PricePoint};
use crate::update::{spec_add_payment, MarketTotals, PositionAccounts};
use vstd::prelude::*;

verus! {

broadcast use crate::number::group_number_of;

/// Where the collateral of a closing position goes.
#[derive(Clone, Copy, Debug, PartialEq, Eq, Structural)]
pub struct CloseSettlement {
    /// Collateral returned to the trader.
    pub active_collateral: Number,
    /// Collateral unlocked back to liquidity providers.
    pub counter_collateral: Number,
    /// The exposure realized: positive is a gain for the trader.
    pub final_exposure: Number,
    /// Losses beyond the capped exposure, paid to liquidity providers.
    pub additional_lp_funds: Number,
    /// The trader's profit or loss against the deposit.
    pub pnl_collateral: Number,
}

/// The settlement of a closing position, as numbers, or why it fails:
/// `(active, counter, final exposure, additional LP funds, pnl)`.
pub open spec fn spec_close_settlement(
    active: int,
    counter: int,
    dnf_fee: int,
    capped_exposure: int,
    additional_losses: int,
    deposit: int,
) -> Result<(int, int, int, int, int), PerpError> {
    if -capped_exposure > active {
        Err(PerpError::ExposureExceedsActiveCollateral)
    } else if capped_exposure > counter {
        Err(PerpError::ExposureExceedsCounterCollateral)
    } else if !in_range(active - dnf_fee) {
        Err(PerpError::Arithmetic)
    } else if active - dnf_fee < 0 {
        Err(PerpError::NegativeActiveCollateral)
    } else if !in_range(capped_exposure - additional_losses) {
        Err(PerpError::Arithmetic)
    } else {
        let after_fee = active - dnf_fee;
        let final_exposure = max_int(capped_exposure - additional_losses, -after_fee);
        let lp = capped_exposure - final_exposure;
        let active_final = after_fee + final_exposure;
        let counter_final = counter - final_exposure;
        let pnl = active_final - deposit;
        if !in_range(lp) || !in_range(active_final) || !in_range(counter_final) || !in_range(pnl) {
            Err(PerpError::Arithmetic)
        } else {
            Ok((active_final, counter_final, final_exposure, lp, pnl))
        }
    }
}

fn lift(o: Option<Number>) -> (r: Result<Number, PerpError>)
    ensures
        match o {
            Some(v) => r == Ok::<Number, PerpError>(v),
            None => r == Err::<Number, PerpError>(PerpError::Arithmetic),
        },
{
    match o {
        Some(v) => Ok(v),
        None => Err(PerpError::Arithmetic),
    }
}

/// Settles a closing position: the delta neutrality fee `dnf_fee` comes out
/// of the active collateral first; the capped exposure less the additional
/// losses is then realized, but never takes more than what remains; what
/// the trader loses beyond the capped exposure goes to the liquidity
/// providers, and the counter collateral left is unlocked.
pub fn close_position_settlement(
    active_collateral: Number,
    counter_collateral: Number,
    dnf_fee: Number,
    capped_exposure: Number,
    additional_losses: Number,
    deposit_collateral: Number,
) -> (r: Result<CloseSettlement, PerpError>)
    requires
        active_collateral@ >= 0,
        counter_collateral@ >= 0,
        additional_losses@ >= 0,
    ensures
        match spec_close_settlement(
            active_collateral@,
            counter_collateral@,
            dnf_fee@,
            capped_exposure@,
            additional_losses@,
            deposit_collateral@,
        ) {
            Err(e) => r == Err::<CloseSettlement, PerpError>(e),
            Ok((a, c, f, l, p)) => r matches Ok(s) && s.active_collateral@ == a && s.counter_collateral@ == c
                && s.final_exposure@ == f && s.additional_lp_funds@ == l && s.pnl_collateral@ == p,
        },
{
    if active_collateral.lt(&capped_exposure.neg()) {
        return Err(PerpError::ExposureExceedsActiveCollateral);
    }
    if counter_collateral.lt(&capped_exposure) {
        return Err(PerpError::ExposureExceedsCounterCollateral);
    }
    let after_fee = lift(active_collateral.checked_sub(&dnf_fee))?;
    if after_fee.is_negative() {
        return Err(PerpError::NegativeActiveCollateral);
    }
    let total_exposure = lift(capped_exposure.checked_sub(&additional_losses))?;
    let final_exposure = total_exposure.max(&after_fee.neg());
    let additional_lp_funds = lift(capped_exposure.checked_sub(&final_exposure))?;
    let active_final = lift(after_fee.checked_add(&final_exposure))?;
    let counter_final = lift(counter_collateral.checked_sub(&final_exposure))?;
    let pnl_collateral = lift(active_final.checked_sub(&deposit_collateral))?;
    Ok(
        CloseSettlement {
            active_collateral: active_final,
            counter_collateral: counter_final,
            final_exposure,
            additional_lp_funds,
            pnl_collateral,
        },
    )
}

/// Closing moves collateral and creates none: what the trader gets back and
/// what is unlocked to liquidity providers add up to the position's active
/// and counter collateral less the delta neutrality fee; neither is
/// negative, and the trader gets back the position's collateral less the fee
/// plus at most the capped exposure. When the collateral left after the fee
/// also covers the capped loss, the additional funds to liquidity providers
/// are not negative.
pub proof fn lemma_close_conserves(
    active: int,
    counter: int,
    dnf_fee: int,
    capped_exposure: int,
    additional_losses: int,
    deposit: int,
)
    requires
        counter >= 0,
        additional_losses >= 0,
        spec_close_settlement(active, counter, dnf_fee, capped_exposure, additional_losses, deposit) is Ok,
    ensures
        ({
            let (a, c, f, l, p) = spec_close_settlement(
                active,
                counter,
                dnf_fee,
                capped_exposure,
                additional_losses,
                deposit,
            )->Ok_0;
            &&& a + c == active + counter - dnf_fee
            &&& a >= 0
            &&& c >= 0
            &&& (active - dnf_fee + capped_exposure >= 0 ==> l >= 0 && f <= capped_exposure && a
                <= active - dnf_fee + capped_exposure)
            &&& p == a - deposit
        }),
{
}

/// Why a position closes.
#[derive(Clone, Copy, Debug, PartialEq, Eq, Structural)]
pub enum PositionCloseReason {
    /// Closed by the crank for the given reason.
    Liquidated(LiquidationReason),
    /// Closed by its owner.
    Direct,
}

/// How to close a position: the exposure to realize, capped at what the
/// collateral allows, the losses beyond the cap, the price to settle at and
/// why.
#[derive(Clone, Copy, Debug, PartialEq, Eq, Structural)]
pub struct ClosePositionInstructions {
    pub accounts: PositionAccounts,
    pub capped_exposure: Number,
    /// Losses beyond the capped exposure (not negative).
    pub additional_losses: Number,
    pub settlement_price: PricePoint,
    pub reason: PositionCloseReason,
}

/// The record kept of a closed position.
#[derive(Clone, Copy, Debug, PartialEq, Eq, Structural)]
pub struct ClosedPositionRecord {
    pub id: u64,
    pub direction_to_base: DirectionToBase,
    pub notional_size: Number,
    /// Collateral returned to the trader.
    pub active_collateral: Number,
    pub deposit: FeeAccount,
    /// Profit or loss against the deposit, in collateral and in USD.
    pub pnl_collateral: Number,
    pub pnl_usd: Number,
    pub trading_fee: FeeAccount,
    pub funding_fee: FeeAccount,
    pub borrow_fee: FeeAccount,
    pub crank_fee: FeeAccount,
    pub delta_neutrality_fee: FeeAccount,
    pub liquidation_margin: LiquidationMargin,
    pub entry_price_base: Number,
    pub settlement_time: u64,
    pub reason: PositionCloseReason,
}

/// A validated closing, ready to be stored.
#[derive(Clone, Copy, Debug, PartialEq, Eq, Structural)]
pub struct ClosePositionExec {
    pub delta_neutrality_fee: ChargeDeltaNeutralityFeeResult,
    pub open_interest: AdjustOpenInterestResult,
    /// The liquidity totals once the additional funds reach the pool.
    pub liquidity_locked: LiquidityStats,
    /// The liquidity totals once the counter collateral left is unlocked,
    /// when some is left.
    pub liquidity_unlock: Option<LiquidityStats>,
    /// Collateral to send to the trader, when some is left.
    pub trader_collateral_to_send: Option<Number>,
    pub closed_position: ClosedPositionRecord,
    pub settlement_price: PricePoint,
}

/// The record of a position closed with collateral `active` and profit or
/// loss `pnl` and `pnl_usd`, having paid delta neutrality fees `dnf_paid`.
pub open spec fn closed_record(
    ins: ClosePositionInstructions,
    market_type: MarketType,
    entry_price_base: Number,
    active: int,
    pnl: int,
    pnl_usd: int,
    dnf_paid: FeeAccount,
) -> ClosedPositionRecord {
    let pos = ins.accounts.pos;
    ClosedPositionRecord {
        id: pos.id,
        direction_to_base: spec_into_base(
            if pos.notional_size@ >= 0 {
                DirectionToNotional::Long
            } else {
                DirectionToNotional::Short
            },
            market_type,
        ),
        notional_size: pos.notional_size,
        active_collateral: number_of(active),
        deposit: ins.accounts.deposit,
        pnl_collateral: number_of(pnl),
        pnl_usd: number_of(pnl_usd),
        trading_fee: ins.accounts.trading_fee,
        funding_fee: pos.funding_fee,
        borrow_fee: pos.borrow_fee,
        crank_fee: pos.crank_fee,
        delta_neutrality_fee: dnf_paid,
        liquidation_margin: pos.liquidation_margin,
        entry_price_base,
        settlement_time: ins.settlement_price.timestamp,
        reason: ins.reason,
    }
}

/// The liquidity and the record of a closing once the collateral is
/// settled (see [`spec_close_settlement`]): the additional funds reach the
/// locked liquidity, the counter collateral left is unlocked, and the
/// trader's result is valued in USD.
pub open spec fn spec_close_tail(
    market: MarketTotals,
    ins: ClosePositionInstructions,
    market_type: MarketType,
    entry_price_base: Number,
    settled: (int, int, int, int, int),
    dnf_paid: FeeAccount,
) -> Result<(LiquidityStats, Option<LiquidityStats>, ClosedPositionRecord), PerpError> {
    let (active, counter, _, lp_funds, pnl) = settled;
    let price = ins.settlement_price;
    match spec_liquidity_update_locked(market.liquidity, lp_funds) {
        Err(e) => Err(e),
        Ok(locked) => {
            let unlock = if counter > 0 {
                match spec_liquidity_unlock(locked, counter) {
                    Err(e) => Err(e),
                    Ok(u) => Ok(Some(u)),
                }
            } else {
                Ok(None)
            };
            match unlock {
                Err(e) => Err(e),
                Ok(unlocked) => match price.spec_collateral_to_usd(active) {
                    None => Err(PerpError::Arithmetic),
                    Some(active_usd) => match checked(active_usd - ins.accounts.deposit.usd@) {
                        None => Err(PerpError::Arithmetic),
                        Some(pnl_usd) => Ok(
                            (locked, unlocked, closed_record(ins, market_type, entry_price_base, active, pnl, pnl_usd, dnf_paid)),
                        ),
                    },
                },
            }
        },
    }
}

/// Closing a position: the delta neutrality fee for taking its notional
/// size out of the market; its open interest given back (without the caps);
/// its collateral settled (see [`spec_close_settlement`]); then the
/// liquidity and the record of [`spec_close_tail`]. The collateral left is
/// sent to the trader.
pub open spec fn spec_close_exec(
    config: Config,
    market: MarketTotals,
    ins: ClosePositionInstructions,
    market_type: MarketType,
    entry_price_base: Number,
) -> Result<ClosePositionExec, PerpError> {
    let pos = ins.accounts.pos;
    let price = ins.settlement_price;
    let n = pos.notional_size@;
    match spec_charge(
        config.delta_neutrality_fee_cap@,
        config.delta_neutrality_fee_sensitivity@,
        config.delta_neutrality_fee_tax@,
        market.long_interest@ - market.short_interest@,
        -n,
        price,
        Some(pos.liquidation_margin.delta_neutrality@),
        market.delta_neutrality_fund@,
    ) {
        Err(e) => Err(e),
        Ok((fee, protocol, triggered)) => match spec_add_payment(ins.accounts.delta_neutrality_fee, fee, price) {
            None => Err(PerpError::Arithmetic),
            Some(dnf_paid) => match spec_adjust_open_interest(
                market.long_interest@,
                market.short_interest@,
                -n,
                if n >= 0 {
                    DirectionToNotional::Long
                } else {
                    DirectionToNotional::Short
                },
                false,
                config.delta_neutrality_fee_cap,
                config.delta_neutrality_fee_sensitivity,
                market_type,
            ) {
                Err(e) => Err(e),
                Ok(open_interest) => match spec_close_settlement(
                    pos.active_collateral@,
                    pos.counter_collateral@,
                    fee,
                    ins.capped_exposure@,
                    ins.additional_losses@,
                    ins.accounts.deposit.collateral@,
                ) {
                    Err(e) => Err(e),
                    Ok(settled) => match spec_close_tail(market, ins, market_type, entry_price_base, settled, dnf_paid) {
                        Err(e) => Err(e),
                        Ok((locked, unlocked, record)) => Ok(
                            ClosePositionExec {
                                delta_neutrality_fee: charge_result_of(
                                    fee,
                                    protocol,
                                    triggered,
                                    market.delta_neutrality_fund,
                                    DeltaNeutralityFeeReason::PositionClose,
                                ),
                                open_interest,
                                liquidity_locked: locked,
                                liquidity_unlock: unlocked,
                                trader_collateral_to_send: if settled.0 > 0 {
                                    Some(number_of(settled.0))
                                } else {
                                    None
                                },
                                closed_position: record,
                                settlement_price: price,
                            },
                        ),
                    },
                },
            },
        },
    }
}

fn close_tail(
    market: &MarketTotals,
    ins: &ClosePositionInstructions,
    market_type: MarketType,
    entry_price_base: Number,
    settled: &CloseSettlement,
    dnf_paid: FeeAccount,
) -> (r: Result<(LiquidityStats, Option<LiquidityStats>, ClosedPositionRecord), PerpError>)
    requires
        market.wf(),
        settled.active_collateral@ >= 0,
        settled.counter_collateral@ >= 0,
    ensures
        r == spec_close_tail(
            *market,
            *ins,
            market_type,
            entry_price_base,
            (
                settled.active_collateral@,
                settled.counter_collateral@,
                settled.final_exposure@,
                settled.additional_lp_funds@,
                settled.pnl_collateral@,
            ),
            dnf_paid,
        ),
{
    let price = &ins.settlement_price;
    let locked = liquidity_update_locked(market.liquidity, settled.additional_lp_funds)?;
    let unlocked = if settled.counter_collateral.is_strictly_positive() {
        Some(liquidity_unlock(locked, settled.counter_collateral)?)
    } else {
        None
    };
    let active_usd = lift(price.collateral_to_usd(&settled.active_collateral))?;
    let pnl_usd = lift(active_usd.checked_sub(&ins.accounts.deposit.usd))?;
    let pos = ins.accounts.pos;
    let record = ClosedPositionRecord {
        id: pos.id,
        direction_to_base: pos.direction().into_base(market_type),
        notional_size: pos.notional_size,
        active_collateral: settled.active_collateral,
        deposit: ins.accounts.deposit,
        pnl_collateral: settled.pnl_collateral,
        pnl_usd,
        trading_fee: ins.accounts.trading_fee,
        funding_fee: pos.funding_fee,
        borrow_fee: pos.borrow_fee,
        crank_fee: pos.crank_fee,
        delta_neutrality_fee: dnf_paid,
        liquidation_margin: pos.liquidation_margin,
        entry_price_base,
        settlement_time: price.timestamp,
        reason: ins.reason,
    };
    Ok((locked, unlocked, record))
}

impl ClosePositionExec {
    /// Validates the closing of a position (see [`spec_close_exec`]);
    /// `entry_price_base` is the price at which it was opened.
    pub fn new(
        config: &Config,
        market: &MarketTotals,
        ins: ClosePositionInstructions,
        market_type: MarketType,
        entry_price_base: Number,
    ) -> (r: Result<ClosePositionExec, PerpError>)
        requires
            market.wf(),
            ins.settlement_price.wf(),
            config.delta_neutrality_fee_tax@ >= 0,
            ins.accounts.pos.active_collateral@ >= 0,
            ins.accounts.pos.counter_collateral@ >= 0,
            ins.additional_losses@ >= 0,
        ensures
            r == spec_close_exec(*config, *market, ins, market_type, entry_price_base),
    {
        let pos = ins.accounts.pos;
        let price = ins.settlement_price;
        market.long_interest.range_fact();
        market.short_interest.range_fact();
        let net = market.long_interest.checked_sub(&market.short_interest).unwrap();
        let notional_return = pos.notional_size.neg();
        let dnf = charge_delta_neutrality_fee_no_update(
            config.delta_neutrality_fee_cap,
            config.delta_neutrality_fee_sensitivity,
            config.delta_neutrality_fee_tax,
            net,
            notional_return,
            price,
            DeltaNeutralityFeeReason::PositionClose,
            pos.liquidation_margin.delta_neutrality,
            market.delta_neutrality_fund,
        )?;
        let mut dnf_paid = ins.accounts.delta_neutrality_fee;
        dnf_paid.checked_add_assign(dnf.fee, &price)?;
        let open_interest = check_adjust_net_open_interest(
            market.long_interest,
            market.short_interest,
            notional_return,
            pos.direction(),
            false,
            config.delta_neutrality_fee_cap,
            config.delta_neutrality_fee_sensitivity,
            market_type,
        )?;
        let settled = close_position_settlement(
            pos.active_collateral,
            pos.counter_collateral,
            dnf.fee,
            ins.capped_exposure,
            ins.additional_losses,
            ins.accounts.deposit.collateral,
        )?;
        proof {
            lemma_close_conserves(
                pos.active_collateral@,
                pos.counter_collateral@,
                dnf.fee@,
                ins.capped_exposure@,
                ins.additional_losses@,
                ins.accounts.deposit.collateral@,
            );
        }
        let (locked, unlocked, record) = close_tail(market, &ins, market_type, entry_price_base, &settled, dnf_paid)?;
        let trader_collateral_to_send = if settled.active_collateral.is_strictly_positive() {
            Some(settled.active_collateral)
        } else {
            None
        };
        Ok(
            ClosePositionExec {
                delta_neutrality_fee: dnf,
                open_interest,
                liquidity_locked: locked,
                liquidity_unlock: unlocked,
                trader_collateral_to_send,
                closed_position: record,
                settlement_price: price,
            },
        )
    }
}

/// A closing gives everything back: the trader's collateral and the
/// counter collateral unlocked add up to the position's active and counter
/// collateral less the last delta neutrality fee; the counter collateral
/// left moves from locked to unlocked liquidity, after the additional funds
/// reach the pool.
pub proof fn lemma_close_returns_collateral(
    config: Config,
    market: MarketTotals,
    ins: ClosePositionInstructions,
    market_type: MarketType,
    entry_price_base: Number,
)
    requires
        ins.accounts.pos.counter_collateral@ >= 0,
        ins.additional_losses@ >= 0,
        spec_close_exec(config, market, ins, market_type, entry_price_base) is Ok,
    ensures
        ({
            let e = spec_close_exec(config, market, ins, market_type, entry_price_base)->Ok_0;
            let pos = ins.accounts.pos;
            let returned = match e.trader_collateral_to_send {
                Some(t) => t@,
                None => 0,
            };
            let unlocked = match e.liquidity_unlock {
                Some(u) => u.unlocked@ - e.liquidity_locked.unlocked@,
                None => 0,
            };
            &&& returned + unlocked == pos.active_collateral@ + pos.counter_collateral@ - e.delta_neutrality_fee.fee@
            &&& returned >= 0
            &&& unlocked >= 0
            &&& e.liquidity_locked.unlocked == market.liquidity.unlocked
        }),
{
    let pos = ins.accounts.pos;
    let price = ins.settlement_price;
    let n = pos.notional_size@;
    let (fee, protocol, triggered) = spec_charge(
        config.delta_neutrality_fee_cap@,
        config.delta_neutrality_fee_sensitivity@,
        config.delta_neutrality_fee_tax@,
        market.long_interest@ - market.short_interest@,
        -n,
        price,
        Some(pos.liquidation_margin.delta_neutrality@),
        market.delta_neutrality_fund@,
    )->Ok_0;
    let settled = spec_close_settlement(
        pos.active_collateral@,
        pos.counter_collateral@,
        fee,
        ins.capped_exposure@,
        ins.additional_losses@,
        ins.accounts.deposit.collateral@,
    )->Ok_0;
    lemma_close_conserves(
        pos.active_collateral@,
        pos.counter_collateral@,
        fee,
        ins.capped_exposure@,
        ins.additional_losses@,
        ins.accounts.deposit.collateral@,
    );
    assert(in_range(fee));
}

} // verus!
