//! Updating an open position: its collateral, its size, its leverage or its
//! maximum gains. Each update is validated before anything is stored.
use crate::config::Config;
use crate::dnf::{
    charge_delta_neutrality_fee_no_update, charge_result_of, check_adjust_net_open_interest, spec_adjust_open_interest,
    spec_charge, AdjustOpenInterestResult, ChargeDeltaNeutralityFeeResult, DeltaNeutralityFeeReason,
};
use crate::dnf::{approx_zero, is_approx_zero};
use crate::error::PerpError;
use crate::funding::LiquidityStats;
use crate::lock::{liquidity_update, spec_liquidity_update, LiquidityUpdate};
use crate::number::{abs, checked, in_range, number_of, opt_view, trunc_div, trunc_mul, Number};
use crate::position::{
    leverage_to_base, spec_leverage_to_base, spec_leverage_to_notional, spec_trade_volume_usd, trade_volume_usd, FeeAccount,
    Position,
};
use crate::price::{spec_into_base, DirectionToNotional, MarketType, PricePoint};
use crate::take_profit::{notional_size, spec_notional_size};
use crate::validate::{
    position_validate_leverage_data, spec_leverage_data, spec_minimum_deposit, validate_minimum_deposit_collateral,
};
use vstd::prelude::*;

verus! {

broadcast use crate::number::group_number_of;

/// A position with the running totals that updates change.
#[derive(Clone, Copy, Debug, PartialEq, Eq, Structural)]
pub struct PositionAccounts {
    pub pos: Position,
    /// Collateral deposited so far, net of withdrawals.
    pub deposit: FeeAccount,
    pub trading_fee: FeeAccount,
    /// Delta neutrality fees paid so far (negative when received).
    pub delta_neutrality_fee: FeeAccount,
}

/// The market totals that an update reads.
#[derive(Clone, Copy, Debug, PartialEq, Eq, Structural)]
pub struct MarketTotals {
    pub long_interest: Number,
    pub short_interest: Number,
    /// Collateral in the delta neutrality fund.
    pub delta_neutrality_fund: Number,
    pub liquidity: LiquidityStats,
}

impl MarketTotals {
    pub open spec fn wf(&self) -> bool {
        self.long_interest@ >= 0 && self.short_interest@ >= 0 && self.liquidity.wf()
    }
}

/// An account after one more payment of `amount`, valued at `price`.
pub open spec fn spec_add_payment(account: FeeAccount, amount: int, price: PricePoint) -> Option<FeeAccount> {
    match (checked(account.collateral@ + amount), price.spec_collateral_to_usd(amount)) {
        (Some(c), Some(u)) => match checked(account.usd@ + u) {
            Some(v) => Some(FeeAccount { collateral: number_of(c), usd: number_of(v) }),
            None => None,
        },
        _ => None,
    }
}

fn add_payment(account: FeeAccount, amount: Number, price: &PricePoint) -> (r: Result<FeeAccount, PerpError>)
    ensures
        match spec_add_payment(account, amount@, *price) {
            Some(a) => r == Ok::<FeeAccount, PerpError>(a),
            None => r == Err::<FeeAccount, PerpError>(PerpError::Arithmetic),
        },
{
    let mut a = account;
    a.checked_add_assign(amount, price)?;
    Ok(a)
}

fn lift(o: Option<Number>) -> (r: Result<Number, PerpError>)
    ensures
        match o {
            Some(v) => r == Ok::<Number, PerpError>(v),
            None => r == Err::<Number, PerpError>(PerpError::Arithmetic),
        },
{
    match o {
        Some(v) => Ok(v),
        None => Err(PerpError::Arithmetic),
    }
}

/// The trade volume of an update: how much the position's trade volume
/// changes, in absolute value.
pub open spec fn spec_volume_change(original: Position, updated: Position, price: PricePoint, market_type: MarketType) -> Option<int> {
    match spec_trade_volume_usd(original.notional_size@, original.active_collateral@, price, market_type) {
        None => None,
        Some(a) => match spec_trade_volume_usd(updated.notional_size@, updated.active_collateral@, price, market_type) {
            None => None,
            Some(b) => match checked(a - b) {
                None => None,
                Some(d) => Some(abs(d)),
            },
        },
    }
}

fn volume_change(original: &Position, updated: &Position, price: &PricePoint, market_type: MarketType) -> (r: Result<
    Number,
    PerpError,
>)
    ensures
        match spec_volume_change(*original, *updated, *price, market_type) {
            Some(v) => r matches Ok(x) && x@ == v,
            None => r == Err::<Number, PerpError>(PerpError::Arithmetic),
        },
{
    let before = trade_volume_usd(original, price, market_type)?;
    let after = trade_volume_usd(updated, price, market_type)?;
    let d = lift(before.checked_sub(&after))?;
    Ok(d.abs())
}

/// Whether a leverage to notional is long to base: its leverage to base is
/// not negative; `None` on overflow.
pub open spec fn spec_long_to_base(leverage_to_notional: Option<int>, market_type: MarketType) -> Option<bool> {
    match leverage_to_notional {
        None => None,
        Some(l) => match spec_leverage_to_base(l, market_type) {
            None => None,
            Some(b) => Some(b >= 0),
        },
    }
}

/// The check that an update keeps the position's direction to base.
pub open spec fn spec_direction_kept(original: Position, updated: Position, price: PricePoint, market_type: MarketType) -> Result<
    (),
    PerpError,
> {
    let new_l = spec_leverage_to_notional(updated.notional_size@, price.price_notional@, updated.active_collateral@);
    let old_l = spec_leverage_to_notional(original.notional_size@, price.price_notional@, original.active_collateral@);
    match (spec_long_to_base(new_l, market_type), spec_long_to_base(old_l, market_type)) {
        (Some(new_long), Some(old_long)) => if new_long != old_long {
            Err(PerpError::DirectionToBaseFlipped)
        } else {
            Ok(())
        },
        _ => Err(PerpError::Arithmetic),
    }
}

pub fn long_to_base(pos: &Position, price: &PricePoint, market_type: MarketType) -> (r: Result<bool, PerpError>)
    ensures
        match spec_long_to_base(
            spec_leverage_to_notional(pos.notional_size@, price.price_notional@, pos.active_collateral@),
            market_type,
        ) {
            Some(b) => r == Ok::<bool, PerpError>(b),
            None => r == Err::<bool, PerpError>(PerpError::Arithmetic),
        },
{
    let l = pos.active_leverage_to_notional(price)?;
    let b = leverage_to_base(l, market_type)?;
    Ok(b.is_positive_or_zero())
}

/// Refuses an update that flips the position's direction to base, which a
/// large enough change of leverage can do when the base asset is the
/// collateral.
pub fn check_direction_kept(original: &Position, updated: &Position, price: &PricePoint, market_type: MarketType) -> (r: Result<
    (),
    PerpError,
>)
    ensures
        r == spec_direction_kept(*original, *updated, *price, market_type),
{
    let new_long = long_to_base(updated, price, market_type)?;
    let old_long = long_to_base(original, price, market_type)?;
    if new_long != old_long {
        Err(PerpError::DirectionToBaseFlipped)
    } else {
        Ok(())
    }
}

/// A validated change of a position's collateral, keeping its size.
#[derive(Clone, Copy, Debug, PartialEq, Eq, Structural)]
pub struct UpdatePositionCollateralExec {
    pub accounts: PositionAccounts,
    pub price_point: PricePoint,
    pub trade_volume: Number,
    /// Collateral to send back to the trader.
    pub user_refund: Option<Number>,
}

/// Changing a position's collateral by `delta`: the active collateral and
/// the deposit move by it; the new leverage must pass the leverage checks;
/// a withdrawal must leave the minimum deposit; and the direction to base
/// may not flip. A withdrawal is refunded to the trader.
pub open spec fn spec_update_collateral(
    config: Config,
    accounts: PositionAccounts,
    delta: int,
    price: PricePoint,
    market_type: MarketType,
) -> Result<UpdatePositionCollateralExec, PerpError> {
    let original = accounts.pos;
    match checked(original.active_collateral@ + delta) {
        None => Err(PerpError::Arithmetic),
        Some(active) => if active <= 0 {
            Err(PerpError::ActiveCollateralExhausted)
        } else {
            match spec_add_payment(accounts.deposit, delta, price) {
                None => Err(PerpError::Arithmetic),
                Some(deposit) => {
                    let pos = Position { active_collateral: number_of(active), ..original };
                    match spec_volume_change(original, pos, price, market_type) {
                        None => Err(PerpError::Arithmetic),
                        Some(volume) => match spec_leverage_data(config.max_leverage, market_type, pos, price, Some(original)) {
                            Err(e) => Err(e),
                            Ok(_) => {
                                let minimum = if delta < 0 {
                                    spec_minimum_deposit(config.minimum_deposit_usd, number_of(active), price)
                                } else {
                                    Ok(())
                                };
                                match minimum {
                                    Err(e) => Err(e),
                                    Ok(_) => match spec_direction_kept(original, pos, price, market_type) {
                                        Err(e) => Err(e),
                                        Ok(_) => Ok(
                                            UpdatePositionCollateralExec {
                                                accounts: PositionAccounts { pos, deposit, ..accounts },
                                                price_point: price,
                                                trade_volume: number_of(volume),
                                                user_refund: if delta < 0 {
                                                    Some(number_of(-delta))
                                                } else {
                                                    None
                                                },
                                            },
                                        ),
                                    },
                                }
                            },
                        },
                    }
                },
            }
        },
    }
}

impl UpdatePositionCollateralExec {
    /// Validates a change of collateral (see [`spec_update_collateral`]).
    pub fn new(
        config: &Config,
        accounts: PositionAccounts,
        collateral_delta: Number,
        price_point: &PricePoint,
        market_type: MarketType,
    ) -> (r: Result<UpdatePositionCollateralExec, PerpError>)
        ensures
            r == spec_update_collateral(*config, accounts, collateral_delta@, *price_point, market_type),
    {
        let original = accounts.pos;
        let active = lift(original.active_collateral.checked_add(&collateral_delta))?;
        if !active.is_strictly_positive() {
            return Err(PerpError::ActiveCollateralExhausted);
        }
        let deposit = add_payment(accounts.deposit, collateral_delta, price_point)?;
        let pos = Position { active_collateral: active, ..original };
        let trade_volume = volume_change(&original, &pos, price_point, market_type)?;
        position_validate_leverage_data(config.max_leverage, market_type, &pos, price_point, Some(&original))?;
        if collateral_delta.is_negative() {
            validate_minimum_deposit_collateral(config.minimum_deposit_usd, active, price_point)?;
        }
        check_direction_kept(&original, &pos, price_point, market_type)?;
        let user_refund = if collateral_delta.is_negative() {
            Some(collateral_delta.neg())
        } else {
            None
        };
        Ok(
            UpdatePositionCollateralExec {
                accounts: PositionAccounts { pos, deposit, ..accounts },
                price_point: *price_point,
                trade_volume,
                user_refund,
            },
        )
    }
}

/// The charges of a resize or of a change of leverage, and what they change
/// beyond the position.
#[derive(Clone, Copy, Debug, PartialEq, Eq, Structural)]
pub struct ResizeCharges {
    pub accounts: PositionAccounts,
    pub trading_fee_delta: Number,
    pub delta_neutrality_fee: ChargeDeltaNeutralityFeeResult,
    pub open_interest: AdjustOpenInterestResult,
    pub liquidity_update: Option<LiquidityUpdate>,
}

/// The net notional once an open interest side is set.
pub open spec fn spec_net_after(open_interest: AdjustOpenInterestResult, long_interest: int, short_interest: int) -> int {
    match open_interest {
        AdjustOpenInterestResult::Long(l) => l@ - short_interest,
        AdjustOpenInterestResult::Short(s) => long_interest - s@,
    }
}

/// Charging a resized position (`accounts.pos`, from `original`): the
/// trading fee on its growth and the delta neutrality fee on the change of
/// notional come out of its active collateral, which must stay strictly
/// positive; the open interest on its side moves within the caps; and the
/// change of counter collateral is locked or unlocked.
pub open spec fn spec_resize_charges(
    config: Config,
    market: MarketTotals,
    original: Position,
    accounts: PositionAccounts,
    old_nic: int,
    new_nic: int,
    counter_collateral_delta: int,
    price: PricePoint,
    market_type: MarketType,
) -> Result<ResizeCharges, PerpError> {
    let pos = accounts.pos;
    let long = market.long_interest@;
    let short = market.short_interest@;
    match config.spec_trade_fee(old_nic, new_nic, original.counter_collateral@, pos.counter_collateral@) {
        None => Err(PerpError::Arithmetic),
        Some(fee) => match checked(pos.active_collateral@ - fee) {
            None => Err(PerpError::Arithmetic),
            Some(active) => if active <= 0 {
                Err(PerpError::ActiveCollateralExhausted)
            } else {
                match spec_add_payment(accounts.trading_fee, fee, price) {
                    None => Err(PerpError::Arithmetic),
                    Some(trading_fee) => match checked(pos.notional_size@ - original.notional_size@) {
                        None => Err(PerpError::Arithmetic),
                        Some(diff) => match spec_charge(
                            config.delta_neutrality_fee_cap@,
                            config.delta_neutrality_fee_sensitivity@,
                            config.delta_neutrality_fee_tax@,
                            long - short,
                            diff,
                            price,
                            Some(pos.liquidation_margin.delta_neutrality@),
                            market.delta_neutrality_fund@,
                        ) {
                            Err(e) => Err(e),
                            Ok((dnf_fee, protocol, triggered)) => match checked(active - dnf_fee) {
                                None => Err(PerpError::Arithmetic),
                                Some(active) => if active <= 0 {
                                    Err(PerpError::ActiveCollateralExhausted)
                                } else {
                                    match spec_add_payment(accounts.delta_neutrality_fee, dnf_fee, price) {
                                        None => Err(PerpError::Arithmetic),
                                        Some(dnf_paid) => match spec_adjust_open_interest(
                                            long,
                                            short,
                                            diff,
                                            if pos.notional_size@ >= 0 {
                                                DirectionToNotional::Long
                                            } else {
                                                DirectionToNotional::Short
                                            },
                                            true,
                                            config.delta_neutrality_fee_cap,
                                            config.delta_neutrality_fee_sensitivity,
                                            market_type,
                                        ) {
                                            Err(e) => Err(e),
                                            Ok(open_interest) => match spec_liquidity_update(
                                                market.liquidity,
                                                counter_collateral_delta,
                                                price,
                                                spec_net_after(open_interest, long, short),
                                                config.carry_leverage@,
                                            ) {
                                                Err(e) => Err(e),
                                                Ok(liquidity_update) => Ok(
                                                    ResizeCharges {
                                                        accounts: PositionAccounts {
                                                            pos: Position { active_collateral: number_of(active), ..pos },
                                                            trading_fee,
                                                            delta_neutrality_fee: dnf_paid,
                                                            ..accounts
                                                        },
                                                        trading_fee_delta: number_of(fee),
                                                        delta_neutrality_fee: charge_result_of(
                                                            dnf_fee,
                                                            protocol,
                                                            triggered,
                                                            market.delta_neutrality_fund,
                                                            DeltaNeutralityFeeReason::PositionUpdate,
                                                        ),
                                                        open_interest,
                                                        liquidity_update,
                                                    },
                                                ),
                                            },
                                        },
                                    }
                                },
                            },
                        },
                    },
                }
            },
        },
    }
}

/// Takes `fee` out of the active collateral, which must stay strictly
/// positive.
fn take_from_active(active: Number, fee: Number) -> (r: Result<Number, PerpError>)
    ensures
        match checked(active@ - fee@) {
            None => r == Err::<Number, PerpError>(PerpError::Arithmetic),
            Some(a) => if a <= 0 {
                r == Err::<Number, PerpError>(PerpError::ActiveCollateralExhausted)
            } else {
                r matches Ok(x) && x@ == a
            },
        },
{
    let a = lift(active.checked_sub(&fee))?;
    if a.is_strictly_positive() {
        Ok(a)
    } else {
        Err(PerpError::ActiveCollateralExhausted)
    }
}

/// Charges a resized position (see [`spec_resize_charges`]).
fn resize_charges(
    config: &Config,
    market: &MarketTotals,
    original: &Position,
    accounts: PositionAccounts,
    old_nic: Number,
    new_nic: Number,
    counter_collateral_delta: Number,
    price: &PricePoint,
    market_type: MarketType,
) -> (r: Result<ResizeCharges, PerpError>)
    requires
        price.wf(),
        market.wf(),
        config.carry_leverage@ >= 0,
        config.delta_neutrality_fee_tax@ >= 0,
    ensures
        r == spec_resize_charges(*config, *market, *original, accounts, old_nic@, new_nic@, counter_collateral_delta@, *price, market_type),
{
    let pos = accounts.pos;
    market.long_interest.range_fact();
    market.short_interest.range_fact();
    let fee = lift(config.calculate_trade_fee(old_nic, new_nic, original.counter_collateral, pos.counter_collateral))?;
    let active = take_from_active(pos.active_collateral, fee)?;
    let trading_fee = add_payment(accounts.trading_fee, fee, price)?;
    let diff = lift(pos.notional_size.checked_sub(&original.notional_size))?;
    let net = market.long_interest.checked_sub(&market.short_interest).unwrap();
    let dnf = charge_delta_neutrality_fee_no_update(
        config.delta_neutrality_fee_cap,
        config.delta_neutrality_fee_sensitivity,
        config.delta_neutrality_fee_tax,
        net,
        diff,
        *price,
        DeltaNeutralityFeeReason::PositionUpdate,
        pos.liquidation_margin.delta_neutrality,
        market.delta_neutrality_fund,
    )?;
    let active = take_from_active(active, dnf.fee)?;
    let dnf_paid = add_payment(accounts.delta_neutrality_fee, dnf.fee, price)?;
    let open_interest = check_adjust_net_open_interest(
        market.long_interest,
        market.short_interest,
        diff,
        pos.direction(),
        true,
        config.delta_neutrality_fee_cap,
        config.delta_neutrality_fee_sensitivity,
        market_type,
    )?;
    let net_after = match open_interest {
        AdjustOpenInterestResult::Long(l) => {
            l.range_fact();
            l.checked_sub(&market.short_interest).unwrap()
        },
        AdjustOpenInterestResult::Short(s) => {
            s.range_fact();
            market.long_interest.checked_sub(&s).unwrap()
        },
    };
    let liquidity_update = liquidity_update(market.liquidity, counter_collateral_delta, price, net_after, config.carry_leverage)?;
    Ok(
        ResizeCharges {
            accounts: PositionAccounts {
                pos: Position { active_collateral: active, ..pos },
                trading_fee,
                delta_neutrality_fee: dnf_paid,
                ..accounts
            },
            trading_fee_delta: fee,
            delta_neutrality_fee: dnf,
            open_interest,
            liquidity_update,
        },
    )
}

/// A validated resize of a position: collateral added or withdrawn at the
/// same leverage.
#[derive(Clone, Copy, Debug, PartialEq, Eq, Structural)]
pub struct UpdatePositionSizeExec {
    pub charges: ResizeCharges,
    pub price_point: PricePoint,
    pub trade_volume: Number,
    /// Collateral to send back to the trader.
    pub user_refund: Option<Number>,
}

/// The new active collateral of a resize by `delta`, which must stay
/// clearly positive, and the factor that the position scales by.
pub open spec fn spec_resize_scale(active: int, delta: int) -> Result<(int, int), PerpError> {
    match checked(active + delta) {
        None => Err(PerpError::Arithmetic),
        Some(new_active) => if !(new_active > 0 && !approx_zero(new_active)) {
            Err(PerpError::ActiveCollateralExhausted)
        } else if active == 0 || !(checked(trunc_div(new_active, active)) is Some) {
            Err(PerpError::Arithmetic)
        } else if trunc_div(new_active, active) <= 0 {
            Err(PerpError::ZeroScaleFactor)
        } else {
            Ok((new_active, trunc_div(new_active, active)))
        },
    }
}

/// The sizes of a position scaled by `scale`: the old and new notional
/// sizes in collateral, the new notional size, the new counter collateral
/// and its change.
pub open spec fn spec_resize_sizes(original: Position, scale: int, price: PricePoint) -> Result<(int, int, int, int, int), PerpError> {
    let counter = original.counter_collateral@;
    match price.spec_notional_to_collateral(original.notional_size@) {
        None => Err(PerpError::Arithmetic),
        Some(old_nic) => match checked(trunc_mul(old_nic, scale)) {
            None => Err(PerpError::Arithmetic),
            Some(new_nic) => match price.spec_collateral_to_notional(new_nic) {
                None => Err(PerpError::Arithmetic),
                Some(notional) => match checked(trunc_mul(counter, scale)) {
                    None => Err(PerpError::Arithmetic),
                    Some(new_counter) => if new_counter == 0 {
                        Err(PerpError::ZeroCounterCollateral)
                    } else {
                        match checked(new_counter - counter) {
                            None => Err(PerpError::Arithmetic),
                            Some(counter_delta) => Ok((old_nic, new_nic, notional, new_counter, counter_delta)),
                        }
                    },
                },
            },
        },
    }
}

/// The checks and charges of a resized or releveraged position `pos`
/// (from `original`): the trade volume, the leverage checks, the minimum
/// deposit when `withdrawal` is set, the charges of [`spec_resize_charges`],
/// and a kept direction to base. Gives the volume and the charges.
pub open spec fn spec_resize_validate(
    config: Config,
    market: MarketTotals,
    original: Position,
    accounts: PositionAccounts,
    withdrawal: bool,
    old_nic: int,
    new_nic: int,
    counter_delta: int,
    price: PricePoint,
    market_type: MarketType,
) -> Result<(int, ResizeCharges), PerpError> {
    let pos = accounts.pos;
    match spec_volume_change(original, pos, price, market_type) {
        None => Err(PerpError::Arithmetic),
        Some(volume) => match spec_leverage_data(config.max_leverage, market_type, pos, price, Some(original)) {
            Err(e) => Err(e),
            Ok(_) => {
                let minimum = if withdrawal {
                    spec_minimum_deposit(config.minimum_deposit_usd, pos.active_collateral, price)
                } else {
                    Ok(())
                };
                match minimum {
                    Err(e) => Err(e),
                    Ok(_) => match spec_resize_charges(
                        config,
                        market,
                        original,
                        accounts,
                        old_nic,
                        new_nic,
                        counter_delta,
                        price,
                        market_type,
                    ) {
                        Err(e) => Err(e),
                        Ok(charges) => match spec_direction_kept(original, charges.accounts.pos, price, market_type) {
                            Err(e) => Err(e),
                            Ok(_) => Ok((volume, charges)),
                        },
                    },
                }
            },
        },
    }
}

/// Resizing a position by adding `delta` collateral at the same leverage:
/// the new active collateral must stay clearly positive; the notional size
/// and the counter collateral scale with it; the checks and charges of
/// [`spec_resize_validate`] apply, with the minimum deposit on a
/// withdrawal, which is refunded to the trader.
pub open spec fn spec_update_size(
    config: Config,
    market: MarketTotals,
    accounts: PositionAccounts,
    delta: int,
    price: PricePoint,
    market_type: MarketType,
) -> Result<UpdatePositionSizeExec, PerpError> {
    let original = accounts.pos;
    match spec_resize_scale(original.active_collateral@, delta) {
        Err(e) => Err(e),
        Ok((new_active, scale)) => match spec_add_payment(accounts.deposit, delta, price) {
            None => Err(PerpError::Arithmetic),
            Some(deposit) => match spec_resize_sizes(original, scale, price) {
                Err(e) => Err(e),
                Ok((old_nic, new_nic, notional, new_counter, counter_delta)) => {
                    let pos = Position {
                        active_collateral: number_of(new_active),
                        notional_size: number_of(notional),
                        counter_collateral: number_of(new_counter),
                        ..original
                    };
                    match spec_resize_validate(
                        config,
                        market,
                        original,
                        PositionAccounts { pos, deposit, ..accounts },
                        delta < 0,
                        old_nic,
                        new_nic,
                        counter_delta,
                        price,
                        market_type,
                    ) {
                        Err(e) => Err(e),
                        Ok((volume, charges)) => Ok(
                            UpdatePositionSizeExec {
                                charges,
                                price_point: price,
                                trade_volume: number_of(volume),
                                user_refund: if delta < 0 {
                                    Some(number_of(-delta))
                                } else {
                                    None
                                },
                            },
                        ),
                    }
                },
            },
        },
    }
}

fn resize_scale(active: Number, delta: Number) -> (r: Result<(Number, Number), PerpError>)
    ensures
        match spec_resize_scale(active@, delta@) {
            Err(e) => r == Err::<(Number, Number), PerpError>(e),
            Ok((a, s)) => r matches Ok((x, y)) && x@ == a && y@ == s,
        },
{
    let new_active = lift(active.checked_add(&delta))?;
    if !(new_active.is_strictly_positive() && !is_approx_zero(&new_active)) {
        return Err(PerpError::ActiveCollateralExhausted);
    }
    let scale = lift(new_active.checked_div(&active))?;
    if !scale.is_strictly_positive() {
        return Err(PerpError::ZeroScaleFactor);
    }
    Ok((new_active, scale))
}

fn resize_sizes(original: &Position, scale: Number, price: &PricePoint) -> (r: Result<
    (Number, Number, Number, Number, Number),
    PerpError,
>)
    requires
        price.wf(),
    ensures
        match spec_resize_sizes(*original, scale@, *price) {
            Err(e) => r == Err::<(Number, Number, Number, Number, Number), PerpError>(e),
            Ok((o, n, nn, c, cd)) => r matches Ok((x1, x2, x3, x4, x5)) && x1@ == o && x2@ == n && x3@ == nn && x4@ == c && x5@
                == cd,
        },
{
    let old_nic = lift(price.notional_to_collateral(&original.notional_size))?;
    let new_nic = lift(old_nic.checked_mul(&scale))?;
    let notional = lift(price.collateral_to_notional(&new_nic))?;
    let new_counter = lift(original.counter_collateral.checked_mul(&scale))?;
    if new_counter.is_zero() {
        return Err(PerpError::ZeroCounterCollateral);
    }
    let counter_delta = lift(new_counter.checked_sub(&original.counter_collateral))?;
    Ok((old_nic, new_nic, notional, new_counter, counter_delta))
}

/// Checks and charges a resized or releveraged position (see
/// [`spec_resize_validate`]).
fn resize_validate(
    config: &Config,
    market: &MarketTotals,
    original: &Position,
    accounts: PositionAccounts,
    withdrawal: bool,
    old_nic: Number,
    new_nic: Number,
    counter_delta: Number,
    price: &PricePoint,
    market_type: MarketType,
) -> (r: Result<(Number, ResizeCharges), PerpError>)
    requires
        price.wf(),
        market.wf(),
        config.carry_leverage@ >= 0,
        config.delta_neutrality_fee_tax@ >= 0,
    ensures
        match spec_resize_validate(
            *config,
            *market,
            *original,
            accounts,
            withdrawal,
            old_nic@,
            new_nic@,
            counter_delta@,
            *price,
            market_type,
        ) {
            Err(e) => r == Err::<(Number, ResizeCharges), PerpError>(e),
            Ok((v, c)) => r matches Ok((x, y)) && x@ == v && y == c,
        },
{
    let pos = accounts.pos;
    let trade_volume = volume_change(original, &pos, price, market_type)?;
    position_validate_leverage_data(config.max_leverage, market_type, &pos, price, Some(original))?;
    if withdrawal {
        validate_minimum_deposit_collateral(config.minimum_deposit_usd, pos.active_collateral, price)?;
    }
    let charges = resize_charges(config, market, original, accounts, old_nic, new_nic, counter_delta, price, market_type)?;
    check_direction_kept(original, &charges.accounts.pos, price, market_type)?;
    Ok((trade_volume, charges))
}

impl UpdatePositionSizeExec {
    /// Validates a resize (see [`spec_update_size`]).
    pub fn new(
        config: &Config,
        market: &MarketTotals,
        accounts: PositionAccounts,
        collateral_delta: Number,
        price_point: &PricePoint,
        market_type: MarketType,
    ) -> (r: Result<UpdatePositionSizeExec, PerpError>)
        requires
            price_point.wf(),
            market.wf(),
            config.carry_leverage@ >= 0,
            config.delta_neutrality_fee_tax@ >= 0,
        ensures
            r == spec_update_size(*config, *market, accounts, collateral_delta@, *price_point, market_type),
    {
        let original = accounts.pos;
        let (new_active, scale) = resize_scale(original.active_collateral, collateral_delta)?;
        let deposit = add_payment(accounts.deposit, collateral_delta, price_point)?;
        let (old_nic, new_nic, notional, new_counter, counter_delta) = resize_sizes(&original, scale, price_point)?;
        let pos = Position {
            active_collateral: new_active,
            notional_size: notional,
            counter_collateral: new_counter,
            ..original
        };
        let (trade_volume, charges) = resize_validate(
            config,
            market,
            &original,
            PositionAccounts { pos, deposit, ..accounts },
            collateral_delta.is_negative(),
            old_nic,
            new_nic,
            counter_delta,
            price_point,
            market_type,
        )?;
        let user_refund = if collateral_delta.is_negative() {
            Some(collateral_delta.neg())
        } else {
            None
        };
        Ok(UpdatePositionSizeExec { charges, price_point: *price_point, trade_volume, user_refund })
    }
}

/// A validated change of a position's leverage: a new notional size on the
/// same active collateral.
#[derive(Clone, Copy, Debug, PartialEq, Eq, Structural)]
pub struct UpdatePositionLeverageExec {
    pub charges: ResizeCharges,
    pub price_point: PricePoint,
    pub trade_volume: Number,
}

/// The sizes of a position given a new notional size, keeping the ratio of
/// counter collateral to notional size in collateral: the old and new
/// notional sizes in collateral, the new counter collateral and its change.
pub open spec fn spec_releverage_sizes(original: Position, notional_size: int, price: PricePoint) -> Result<
    (int, int, int, int),
    PerpError,
> {
    let counter = original.counter_collateral@;
    if approx_zero(notional_size) {
        Err(PerpError::ZeroNotionalSize)
    } else {
        match price.spec_notional_to_collateral(abs(original.notional_size@)) {
            None => Err(PerpError::Arithmetic),
            Some(size) => if size == 0 {
                Err(PerpError::ZeroNotionalSize)
            } else {
                match checked(trunc_div(counter, size)) {
                    None => Err(PerpError::Arithmetic),
                    Some(ratio) => match price.spec_notional_to_collateral(original.notional_size@) {
                        None => Err(PerpError::Arithmetic),
                        Some(old_nic) => match price.spec_notional_to_collateral(notional_size) {
                            None => Err(PerpError::Arithmetic),
                            Some(new_nic) => match checked(trunc_mul(abs(new_nic), ratio)) {
                                None => Err(PerpError::Arithmetic),
                                Some(new_counter) => if new_counter == 0 {
                                    Err(PerpError::ZeroCounterCollateral)
                                } else {
                                    match checked(new_counter - counter) {
                                        None => Err(PerpError::Arithmetic),
                                        Some(counter_delta) => Ok((old_nic, new_nic, new_counter, counter_delta)),
                                    }
                                },
                            },
                        },
                    },
                }
            },
        }
    }
}

/// Changing a position's leverage to a new notional size, which may not be
/// about zero: the counter collateral keeps its ratio to the notional size
/// in collateral, and the checks and charges of [`spec_resize_validate`]
/// apply.
pub open spec fn spec_update_leverage(
    config: Config,
    market: MarketTotals,
    accounts: PositionAccounts,
    notional_size: Number,
    price: PricePoint,
    market_type: MarketType,
) -> Result<UpdatePositionLeverageExec, PerpError> {
    let original = accounts.pos;
    match spec_releverage_sizes(original, notional_size@, price) {
        Err(e) => Err(e),
        Ok((old_nic, new_nic, new_counter, counter_delta)) => {
            let pos = Position { notional_size, counter_collateral: number_of(new_counter), ..original };
            match spec_resize_validate(
                config,
                market,
                original,
                PositionAccounts { pos, ..accounts },
                false,
                old_nic,
                new_nic,
                counter_delta,
                price,
                market_type,
            ) {
                Err(e) => Err(e),
                Ok((volume, charges)) => Ok(
                    UpdatePositionLeverageExec { charges, price_point: price, trade_volume: number_of(volume) },
                ),
            }
        },
    }
}

fn releverage_sizes(original: &Position, notional_size: Number, price: &PricePoint) -> (r: Result<
    (Number, Number, Number, Number),
    PerpError,
>)
    requires
        price.wf(),
    ensures
        match spec_releverage_sizes(*original, notional_size@, *price) {
            Err(e) => r == Err::<(Number, Number, Number, Number), PerpError>(e),
            Ok((o, n, c, cd)) => r matches Ok((x1, x2, x3, x4)) && x1@ == o && x2@ == n && x3@ == c && x4@ == cd,
        },
{
    if is_approx_zero(&notional_size) {
        return Err(PerpError::ZeroNotionalSize);
    }
    let size = lift(price.notional_to_collateral(&original.notional_size.abs()))?;
    if size.is_zero() {
        return Err(PerpError::ZeroNotionalSize);
    }
    let ratio = lift(original.counter_collateral.checked_div(&size))?;
    let old_nic = lift(price.notional_to_collateral(&original.notional_size))?;
    let new_nic = lift(price.notional_to_collateral(&notional_size))?;
    let new_counter = lift(new_nic.abs().checked_mul(&ratio))?;
    if new_counter.is_zero() {
        return Err(PerpError::ZeroCounterCollateral);
    }
    let counter_delta = lift(new_counter.checked_sub(&original.counter_collateral))?;
    Ok((old_nic, new_nic, new_counter, counter_delta))
}

impl UpdatePositionLeverageExec {
    /// Validates a change of leverage (see [`spec_update_leverage`]).
    pub fn new(
        config: &Config,
        market: &MarketTotals,
        accounts: PositionAccounts,
        notional_size: Number,
        price_point: &PricePoint,
        market_type: MarketType,
    ) -> (r: Result<UpdatePositionLeverageExec, PerpError>)
        requires
            price_point.wf(),
            market.wf(),
            config.carry_leverage@ >= 0,
            config.delta_neutrality_fee_tax@ >= 0,
        ensures
            r == spec_update_leverage(*config, *market, accounts, notional_size, *price_point, market_type),
    {
        let original = accounts.pos;
        let (old_nic, new_nic, new_counter, counter_delta) = releverage_sizes(&original, notional_size, price_point)?;
        let pos = Position { notional_size, counter_collateral: new_counter, ..original };
        let (trade_volume, charges) = resize_validate(
            config,
            market,
            &original,
            PositionAccounts { pos, ..accounts },
            false,
            old_nic,
            new_nic,
            counter_delta,
            price_point,
            market_type,
        )?;
        Ok(UpdatePositionLeverageExec { charges, price_point: *price_point, trade_volume })
    }
}

/// A validated change of a position's maximum gains, as a new counter
/// collateral.
#[derive(Clone, Copy, Debug, PartialEq, Eq, Structural)]
pub struct UpdatePositionMaxGainsExec {
    pub accounts: PositionAccounts,
    pub price_point: PricePoint,
    pub liquidity_update: Option<LiquidityUpdate>,
    pub trading_fee_delta: Number,
}

/// Changing a position's maximum gains to a new counter collateral: the
/// leverage checks apply; the trading fee on any growth of the counter
/// collateral comes out of the active collateral, which must stay strictly
/// positive; the change of counter collateral is locked or unlocked; and
/// the direction to base may not flip.
pub open spec fn spec_update_max_gains(
    config: Config,
    market: MarketTotals,
    accounts: PositionAccounts,
    new_counter: int,
    price: PricePoint,
    market_type: MarketType,
) -> Result<UpdatePositionMaxGainsExec, PerpError> {
    let original = accounts.pos;
    let counter = original.counter_collateral@;
    match checked(new_counter - counter) {
        None => Err(PerpError::Arithmetic),
        Some(counter_delta) => {
            let pos = Position { counter_collateral: number_of(new_counter), ..original };
            match spec_leverage_data(config.max_leverage, market_type, pos, price, Some(original)) {
                Err(e) => Err(e),
                Ok(_) => match config.spec_trade_fee(0, 0, counter, new_counter) {
                    None => Err(PerpError::Arithmetic),
                    Some(fee) => match checked(original.active_collateral@ - fee) {
                        None => Err(PerpError::Arithmetic),
                        Some(active) => if active <= 0 {
                            Err(PerpError::ActiveCollateralExhausted)
                        } else {
                            match spec_add_payment(accounts.trading_fee, fee, price) {
                                None => Err(PerpError::Arithmetic),
                                Some(trading_fee) => match spec_liquidity_update(
                                    market.liquidity,
                                    counter_delta,
                                    price,
                                    market.long_interest@ - market.short_interest@,
                                    config.carry_leverage@,
                                ) {
                                    Err(e) => Err(e),
                                    Ok(liquidity_update) => {
                                        let updated = Position { active_collateral: number_of(active), ..pos };
                                        match spec_direction_kept(original, updated, price, market_type) {
                                            Err(e) => Err(e),
                                            Ok(_) => Ok(
                                                UpdatePositionMaxGainsExec {
                                                    accounts: PositionAccounts { pos: updated, trading_fee, ..accounts },
                                                    price_point: price,
                                                    liquidity_update,
                                                    trading_fee_delta: number_of(fee),
                                                },
                                            ),
                                        }
                                    },
                                },
                            }
                        },
                    },
                },
            }
        },
    }
}

impl UpdatePositionMaxGainsExec {
    /// Validates a change of maximum gains to the counter collateral
    /// `new_counter_collateral` (see [`spec_update_max_gains`]).
    pub fn new(
        config: &Config,
        market: &MarketTotals,
        accounts: PositionAccounts,
        new_counter_collateral: Number,
        price_point: &PricePoint,
        market_type: MarketType,
    ) -> (r: Result<UpdatePositionMaxGainsExec, PerpError>)
        requires
            price_point.wf(),
            market.wf(),
            config.carry_leverage@ >= 0,
        ensures
            r == spec_update_max_gains(*config, *market, accounts, new_counter_collateral@, *price_point, market_type),
    {
        let original = accounts.pos;
        let counter_delta = lift(new_counter_collateral.checked_sub(&original.counter_collateral))?;
        let pos = Position { counter_collateral: new_counter_collateral, ..original };
        position_validate_leverage_data(config.max_leverage, market_type, &pos, price_point, Some(&original))?;
        let fee = lift(
            config.calculate_trade_fee(Number::zero(), Number::zero(), original.counter_collateral, new_counter_collateral),
        )?;
        let active = take_from_active(original.active_collateral, fee)?;
        let trading_fee = add_payment(accounts.trading_fee, fee, price_point)?;
        market.long_interest.range_fact();
        market.short_interest.range_fact();
        let net = market.long_interest.checked_sub(&market.short_interest).unwrap();
        let liquidity_update = liquidity_update(market.liquidity, counter_delta, price_point, net, config.carry_leverage)?;
        let updated = Position { active_collateral: active, ..pos };
        check_direction_kept(&original, &updated, price_point, market_type)?;
        Ok(
            UpdatePositionMaxGainsExec {
                accounts: PositionAccounts { pos: updated, trading_fee, ..accounts },
                price_point: *price_point,
                liquidity_update,
                trading_fee_delta: fee,
            },
        )
    }
}

/// The notional size a position would have at a new leverage to base, in
/// its current direction, on its active collateral.
pub fn update_leverage_new_notional_size(
    pos: &Position,
    leverage: Number,
    price_point: &PricePoint,
    market_type: MarketType,
) -> (r: Result<Number, PerpError>)
    requires
        price_point.wf(),
    ensures
        match spec_notional_size(
            leverage@,
            spec_into_base(
                if pos.notional_size@ >= 0 {
                    DirectionToNotional::Long
                } else {
                    DirectionToNotional::Short
                },
                market_type,
            ),
            market_type,
            *price_point,
            pos.active_collateral@,
        ) {
            Some(n) => r matches Ok(x) && x@ == n,
            None => r == Err::<Number, PerpError>(PerpError::Arithmetic),
        },
{
    let direction = pos.direction().into_base(market_type);
    notional_size(leverage, direction, market_type, price_point, pos.active_collateral)
}

/// The notional size a position would have after adding `collateral_delta`
/// collateral at the same leverage: scaled by the new active collateral
/// over the current one.
pub fn update_size_new_notional_size(pos: &Position, collateral_delta: Number) -> (r: Result<Number, PerpError>)
    ensures
        match checked(pos.active_collateral@ + collateral_delta@) {
            None => r == Err::<Number, PerpError>(PerpError::Arithmetic),
            Some(a) => if pos.active_collateral@ == 0 {
                r == Err::<Number, PerpError>(PerpError::Arithmetic)
            } else {
                match checked(trunc_div(a, pos.active_collateral@)) {
                    None => r == Err::<Number, PerpError>(PerpError::Arithmetic),
                    Some(scale) => match checked(trunc_mul(pos.notional_size@, scale)) {
                        None => r == Err::<Number, PerpError>(PerpError::Arithmetic),
                        Some(n) => r matches Ok(x) && x@ == n,
                    },
                }
            },
        },
{
    let a = lift(pos.active_collateral.checked_add(&collateral_delta))?;
    let scale = lift(a.checked_div(&pos.active_collateral))?;
    lift(pos.notional_size.checked_mul(&scale))
}

/// A change of collateral moves the active collateral and the deposit by
/// exactly the change, keeps the notional size and the counter collateral,
/// and refunds exactly what is withdrawn.
pub proof fn lemma_collateral_update_moves_only_collateral(
    config: Config,
    accounts: PositionAccounts,
    delta: int,
    price: PricePoint,
    market_type: MarketType,
)
    requires
        in_range(delta),
        spec_update_collateral(config, accounts, delta, price, market_type) is Ok,
    ensures
        ({
            let e = spec_update_collateral(config, accounts, delta, price, market_type)->Ok_0;
            &&& e.accounts.pos.active_collateral@ == accounts.pos.active_collateral@ + delta
            &&& e.accounts.deposit.collateral@ == accounts.deposit.collateral@ + delta
            &&& e.accounts.pos.notional_size == accounts.pos.notional_size
            &&& e.accounts.pos.counter_collateral == accounts.pos.counter_collateral
            &&& (delta < 0 ==> e.user_refund == Some(number_of(-delta)) && e.user_refund->0@ == -delta)
            &&& (delta >= 0 ==> e.user_refund is None)
        }),
{
}

/// A resize moves the active collateral by the change less the trading and
/// delta neutrality fees charged, the deposit by the change, and the fee
/// accounts by those fees.
pub proof fn lemma_size_update_conserves(
    config: Config,
    market: MarketTotals,
    accounts: PositionAccounts,
    delta: int,
    price: PricePoint,
    market_type: MarketType,
)
    requires
        spec_update_size(config, market, accounts, delta, price, market_type) is Ok,
    ensures
        ({
            let e = spec_update_size(config, market, accounts, delta, price, market_type)->Ok_0;
            let c = e.charges;
            &&& c.accounts.pos.active_collateral@ == accounts.pos.active_collateral@ + delta - c.trading_fee_delta@
                - c.delta_neutrality_fee.fee@
            &&& c.accounts.deposit.collateral@ == accounts.deposit.collateral@ + delta
            &&& c.accounts.trading_fee.collateral@ == accounts.trading_fee.collateral@ + c.trading_fee_delta@
            &&& c.accounts.delta_neutrality_fee.collateral@ == accounts.delta_neutrality_fee.collateral@
                + c.delta_neutrality_fee.fee@
            &&& c.accounts.pos.active_collateral@ > 0
        }),
{
    let original = accounts.pos;
    let (new_active, scale) = spec_resize_scale(original.active_collateral@, delta)->Ok_0;
    let deposit = spec_add_payment(accounts.deposit, delta, price)->Some_0;
    let (old_nic, new_nic, notional, new_counter, counter_delta) = spec_resize_sizes(original, scale, price)->Ok_0;
    let pos = Position {
        active_collateral: number_of(new_active),
        notional_size: number_of(notional),
        counter_collateral: number_of(new_counter),
        ..original
    };
    let acc = PositionAccounts { pos, deposit, ..accounts };
    lemma_resize_charges_conserve(config, market, original, acc, old_nic, new_nic, counter_delta, price, market_type);
}

/// The charges of a resize come out of the active collateral and go into
/// the fee accounts.
proof fn lemma_resize_charges_conserve(
    config: Config,
    market: MarketTotals,
    original: Position,
    accounts: PositionAccounts,
    old_nic: int,
    new_nic: int,
    counter_delta: int,
    price: PricePoint,
    market_type: MarketType,
)
    requires
        spec_resize_charges(config, market, original, accounts, old_nic, new_nic, counter_delta, price, market_type) is Ok,
    ensures
        ({
            let c = spec_resize_charges(config, market, original, accounts, old_nic, new_nic, counter_delta, price, market_type)->Ok_0;
            &&& c.accounts.pos.active_collateral@ == accounts.pos.active_collateral@ - c.trading_fee_delta@ - c.delta_neutrality_fee.fee@
            &&& c.accounts.deposit == accounts.deposit
            &&& c.accounts.trading_fee.collateral@ == accounts.trading_fee.collateral@ + c.trading_fee_delta@
            &&& c.accounts.delta_neutrality_fee.collateral@ == accounts.delta_neutrality_fee.collateral@
                + c.delta_neutrality_fee.fee@
            &&& c.accounts.pos.active_collateral@ > 0
        }),
{
}

} // verus!
