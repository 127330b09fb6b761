//! Opening a position: sizing it, charging its fees, locking liquidity for
//! it and checking it, before anything is stored.
use crate::config::Config;
use crate::dnf::{
    charge_delta_neutrality_fee_no_update, charge_result_of, check_adjust_net_open_interest, spec_adjust_open_interest,
    spec_charge, AdjustOpenInterestResult, ChargeDeltaNeutralityFeeResult, DeltaNeutralityFeeReason,
};
use crate::error::PerpError;
use crate::funding::LiquidityStats;
use crate::lock::{liquidity_lock, moved_to_locked, spec_liquidity_lock};
use crate::number::{checked, in_range, number_of, opt_view, scale, Number};
use crate::position::{spec_trade_volume_usd, trade_volume_usd, FeeAccount, LiquidationMargin, Position};
use crate::price::{DirectionToBase, DirectionToNotional, MarketType, PricePoint};
use crate::take_profit::{
    lemma_counter_collateral_positive, leverage_to_notional, spec_counter_collateral, spec_notional_in_collateral, take_profit_counter_collateral,
    TakeProfitTrader,
};
use crate::validate::{
    do_slippage_assert, position_validate_leverage_data, spec_leverage_data, spec_minimum_deposit, spec_slippage_assert,
    validate_minimum_deposit_collateral, SlippageAssert,
};
use vstd::prelude::*;

verus! {

broadcast use crate::number::group_number_of;

/// What a trader asks for when opening a position.
#[derive(Clone, Copy, Debug, PartialEq, Eq, Structural)]
pub struct OpenPositionParams {
    /// Collateral put into the position (strictly positive).
    pub collateral: Number,
    /// The crank fee paid on top of the collateral.
    pub crank_fee: FeeAccount,
    /// Leverage to base, as a magnitude.
    pub leverage: Number,
    pub direction: DirectionToBase,
    pub slippage_assert: Option<SlippageAssert>,
    pub take_profit_trader: TakeProfitTrader,
}

/// The market state that opening a position reads.
#[derive(Clone, Copy, Debug, PartialEq, Eq, Structural)]
pub struct OpenMarket {
    pub long_interest: Number,
    pub short_interest: Number,
    /// Collateral in the delta neutrality fund.
    pub delta_neutrality_fund: Number,
    pub liquidity: LiquidityStats,
    /// The last position identifier handed out.
    pub last_position_id: u64,
}

/// A new position, sized, charged and with its liquidity locked, that is
/// yet to be checked against its liquidation margin.
#[derive(Clone, Copy, Debug, PartialEq, Eq, Structural)]
pub struct OpenPositionDraft {
    pub pos: Position,
    /// The collateral and crank fee deposited, and their worth in USD.
    pub deposit: FeeAccount,
    pub trading_fee: FeeAccount,
    /// Delta neutrality fees paid so far (negative when received).
    pub delta_neutrality_fee_paid: FeeAccount,
    pub delta_neutrality_fee: ChargeDeltaNeutralityFeeResult,
    pub notional_size_in_collateral: Number,
    pub trade_volume_usd: Number,
    pub price_point: PricePoint,
    /// The liquidity totals once the counter collateral is locked.
    pub liquidity: LiquidityStats,
}

/// A validated new position, ready to be stored.
#[derive(Clone, Copy, Debug, PartialEq, Eq, Structural)]
pub struct OpenPositionExec {
    pub draft: OpenPositionDraft,
    /// The new open interest on the position's side.
    pub open_interest: AdjustOpenInterestResult,
}

/// An account holding nothing.
pub open spec fn zero_account() -> FeeAccount {
    FeeAccount { collateral: number_of(0), usd: number_of(0) }
}

/// No liquidation margin.
pub open spec fn zero_margin() -> LiquidationMargin {
    LiquidationMargin {
        borrow: number_of(0),
        funding: number_of(0),
        delta_neutrality: number_of(0),
        crank: number_of(0),
    }
}

/// An account holding one payment of `amount` collateral, valued at `price`.
pub open spec fn account_of(amount: int, price: PricePoint) -> Option<FeeAccount> {
    match price.spec_collateral_to_usd(amount) {
        Some(usd) => Some(FeeAccount { collateral: number_of(amount), usd: number_of(usd) }),
        None => None,
    }
}

/// The position as first sized, before any fee is taken.
pub open spec fn initial_position(market: OpenMarket, params: OpenPositionParams, notional_size: int, counter_collateral: int) -> Position {
    Position {
        id: (market.last_position_id + 1) as u64,
        notional_size: number_of(notional_size),
        active_collateral: params.collateral,
        counter_collateral: number_of(counter_collateral),
        liquidation_margin: zero_margin(),
        borrow_fee: zero_account(),
        funding_fee: zero_account(),
        crank_fee: params.crank_fee,
    }
}

/// The fees and the liquidity lock of a sized and checked position.
pub open spec fn spec_open_charges(
    config: Config,
    market: OpenMarket,
    params: OpenPositionParams,
    price: PricePoint,
    pos: Position,
    deposit: FeeAccount,
    notional_size_in_collateral: int,
    volume: int,
) -> Result<OpenPositionDraft, PerpError> {
    let net = market.long_interest@ - market.short_interest@;
    let n = pos.notional_size@;
    let cc = pos.counter_collateral@;
    match config.spec_trade_fee_open(notional_size_in_collateral, cc) {
        None => Err(PerpError::Arithmetic),
        Some(fee) => match account_of(fee, price) {
            None => Err(PerpError::Arithmetic),
            Some(trading_fee) => match checked(params.collateral@ - fee) {
                None => Err(PerpError::Arithmetic),
                Some(active) => if active <= 0 {
                    Err(PerpError::ActiveCollateralExhausted)
                } else {
                    match spec_charge(
                        config.delta_neutrality_fee_cap@,
                        config.delta_neutrality_fee_sensitivity@,
                        config.delta_neutrality_fee_tax@,
                        net,
                        n,
                        price,
                        None,
                        market.delta_neutrality_fund@,
                    ) {
                        Err(e) => Err(e),
                        Ok((dnf_fee, protocol, triggered)) => match checked(active - dnf_fee) {
                            None => Err(PerpError::Arithmetic),
                            Some(active) => if active <= 0 {
                                Err(PerpError::ActiveCollateralExhausted)
                            } else {
                                match account_of(dnf_fee, price) {
                                    None => Err(PerpError::Arithmetic),
                                    Some(dnf_paid) => match spec_liquidity_lock(
                                        market.liquidity,
                                        cc,
                                        price,
                                        net,
                                        Some(n),
                                        config.carry_leverage@,
                                    ) {
                                        Err(e) => Err(e),
                                        Ok(liquidity) => Ok(
                                            OpenPositionDraft {
                                                pos: Position { active_collateral: number_of(active), ..pos },
                                                deposit,
                                                trading_fee,
                                                delta_neutrality_fee_paid: dnf_paid,
                                                delta_neutrality_fee: charge_result_of(
                                                    dnf_fee,
                                                    protocol,
                                                    triggered,
                                                    market.delta_neutrality_fund,
                                                    DeltaNeutralityFeeReason::PositionOpen,
                                                ),
                                                notional_size_in_collateral: number_of(notional_size_in_collateral),
                                                trade_volume_usd: number_of(volume),
                                                price_point: price,
                                                liquidity,
                                            },
                                        ),
                                    },
                                }
                            },
                        },
                    }
                },
            },
        },
    }
}

/// Opening a position, up to its liquidation margin: the notional size for
/// the collateral and leverage; the trader's slippage assertion, if any;
/// the counter collateral for the take profit price; the trade volume; the
/// leverage and minimum deposit checks; then the trading fee and the delta
/// neutrality fee come out of the collateral, and the counter collateral is
/// locked.
pub open spec fn spec_open_draft(
    config: Config,
    market: OpenMarket,
    params: OpenPositionParams,
    market_type: MarketType,
    price: PricePoint,
) -> Result<OpenPositionDraft, PerpError> {
    let net = market.long_interest@ - market.short_interest@;
    match spec_notional_in_collateral(params.leverage@, params.direction, market_type, params.collateral@) {
        None => Err(PerpError::Arithmetic),
        Some(nic) => match price.spec_collateral_to_notional(nic) {
            None => Err(PerpError::Arithmetic),
            Some(n) => {
                let slippage = match params.slippage_assert {
                    Some(sa) => spec_slippage_assert(
                        config.delta_neutrality_fee_cap@,
                        config.delta_neutrality_fee_sensitivity@,
                        net,
                        market.delta_neutrality_fund@,
                        sa,
                        n,
                        market_type,
                        None,
                        price,
                    ),
                    None => Ok(()),
                };
                match slippage {
                    Err(e) => Err(e),
                    Ok(_) => match spec_counter_collateral(
                        params.take_profit_trader,
                        params.leverage@,
                        params.direction,
                        market_type,
                        price,
                        params.collateral@,
                        config.max_leverage@,
                    ) {
                        Err(e) => Err(e),
                        Ok(cc) => match checked(params.collateral@ + params.crank_fee.collateral@) {
                            None => Err(PerpError::Arithmetic),
                            Some(d) => match account_of(d, price) {
                                None => Err(PerpError::Arithmetic),
                                Some(deposit) => match spec_trade_volume_usd(n, params.collateral@, price, market_type) {
                                    None => Err(PerpError::Arithmetic),
                                    Some(volume) => {
                                        let pos = initial_position(market, params, n, cc);
                                        match spec_leverage_data(config.max_leverage, market_type, pos, price, None) {
                                            Err(e) => Err(e),
                                            Ok(_) => match spec_minimum_deposit(config.minimum_deposit_usd, params.collateral, price) {
                                                Err(e) => Err(e),
                                                Ok(_) => spec_open_charges(config, market, params, price, pos, deposit, nic, volume),
                                            },
                                        }
                                    },
                                },
                            },
                        },
                    },
                }
            },
        },
    }
}

fn lift(o: Option<Number>) -> (r: Result<Number, PerpError>)
    ensures
        match o {
            Some(v) => r == Ok::<Number, PerpError>(v),
            None => r == Err::<Number, PerpError>(PerpError::Arithmetic),
        },
{
    match o {
        Some(v) => Ok(v),
        None => Err(PerpError::Arithmetic),
    }
}

fn zero_fee_account() -> (r: FeeAccount)
    ensures
        r == zero_account(),
{
    FeeAccount { collateral: Number::zero(), usd: Number::zero() }
}

/// The account of a single payment.
fn single_payment(amount: Number, price: &PricePoint) -> (r: Result<FeeAccount, PerpError>)
    ensures
        match account_of(amount@, *price) {
            Some(a) => r == Ok::<FeeAccount, PerpError>(a),
            None => r == Err::<FeeAccount, PerpError>(PerpError::Arithmetic),
        },
{
    let mut account = zero_fee_account();
    amount.range_fact();
    account.checked_add_assign(amount, price)?;
    Ok(account)
}

/// Takes `fee` out of the active collateral, which must stay strictly
/// positive.
fn take_from_active(active: Number, fee: Number) -> (r: Result<Number, PerpError>)
    ensures
        match checked(active@ - fee@) {
            None => r == Err::<Number, PerpError>(PerpError::Arithmetic),
            Some(a) => if a <= 0 {
                r == Err::<Number, PerpError>(PerpError::ActiveCollateralExhausted)
            } else {
                r matches Ok(x) && x@ == a
            },
        },
{
    let a = lift(active.checked_sub(&fee))?;
    if a.is_strictly_positive() {
        Ok(a)
    } else {
        Err(PerpError::ActiveCollateralExhausted)
    }
}

/// Charges the trading fee and the delta neutrality fee of a sized and
/// checked position, and locks its counter collateral.
fn open_charges(
    config: &Config,
    market: &OpenMarket,
    params: OpenPositionParams,
    price_point: &PricePoint,
    pos: Position,
    deposit: FeeAccount,
    nic: Number,
    volume: Number,
) -> (r: Result<OpenPositionDraft, PerpError>)
    requires
        price_point.wf(),
        config.carry_leverage@ >= 0,
        config.delta_neutrality_fee_tax@ >= 0,
        market.long_interest@ >= 0,
        market.short_interest@ >= 0,
        market.liquidity.wf(),
        pos.counter_collateral@ > 0,
    ensures
        r == spec_open_charges(*config, *market, params, *price_point, pos, deposit, nic@, volume@),
{
    market.long_interest.range_fact();
    market.short_interest.range_fact();
    let net = lift(market.long_interest.checked_sub(&market.short_interest))?;
    let fee = lift(config.calculate_trade_fee_open(nic, pos.counter_collateral))?;
    let trading_fee = single_payment(fee, price_point)?;
    let active = take_from_active(params.collateral, fee)?;
    let dnf = charge_delta_neutrality_fee_no_update(
        config.delta_neutrality_fee_cap,
        config.delta_neutrality_fee_sensitivity,
        config.delta_neutrality_fee_tax,
        net,
        pos.notional_size,
        *price_point,
        DeltaNeutralityFeeReason::PositionOpen,
        Number::zero(),
        market.delta_neutrality_fund,
    )?;
    let active = take_from_active(active, dnf.fee)?;
    let dnf_paid = single_payment(dnf.fee, price_point)?;
    let liquidity = liquidity_lock(
        market.liquidity,
        pos.counter_collateral,
        price_point,
        net,
        Some(pos.notional_size),
        config.carry_leverage,
    )?;
    Ok(
        OpenPositionDraft {
            pos: Position { active_collateral: active, ..pos },
            deposit,
            trading_fee,
            delta_neutrality_fee_paid: dnf_paid,
            delta_neutrality_fee: dnf,
            notional_size_in_collateral: nic,
            trade_volume_usd: volume,
            price_point: *price_point,
            liquidity,
        },
    )
}

/// The fees of a new position come out of its collateral, which stays
/// strictly positive, and its counter collateral is locked.
proof fn lemma_charges_conserve(
    config: Config,
    market: OpenMarket,
    params: OpenPositionParams,
    price: PricePoint,
    pos: Position,
    deposit: FeeAccount,
    nic: int,
    volume: int,
)
    requires
        price.wf(),
        market.liquidity.wf(),
        pos.counter_collateral@ > 0,
        spec_open_charges(config, market, params, price, pos, deposit, nic, volume) is Ok,
    ensures
        ({
            let d = spec_open_charges(config, market, params, price, pos, deposit, nic, volume)->Ok_0;
            &&& d.pos.active_collateral@ == params.collateral@ - d.trading_fee.collateral@ - d.delta_neutrality_fee_paid.collateral@
            &&& d.pos.active_collateral@ > 0
            &&& d.deposit == deposit
            &&& d.pos.crank_fee == pos.crank_fee
            &&& d.pos.counter_collateral == pos.counter_collateral
            &&& moved_to_locked(market.liquidity, d.liquidity, pos.counter_collateral@)
        }),
{
    let net = market.long_interest@ - market.short_interest@;
    let fee = config.spec_trade_fee_open(nic, pos.counter_collateral@)->Some_0;
    let charge = spec_charge(
        config.delta_neutrality_fee_cap@,
        config.delta_neutrality_fee_sensitivity@,
        config.delta_neutrality_fee_tax@,
        net,
        pos.notional_size@,
        price,
        None,
        market.delta_neutrality_fund@,
    )->Ok_0;
    assert(in_range(fee) && in_range(charge.0));
    assert(in_range(params.collateral@ - fee - charge.0));
    let liquidity = spec_liquidity_lock(market.liquidity, pos.counter_collateral@, price, net, Some(pos.notional_size@), config.carry_leverage@)->Ok_0;
    assert(in_range(market.liquidity.unlocked@ - pos.counter_collateral@));
    assert(in_range(market.liquidity.locked@ + pos.counter_collateral@));
    assert(moved_to_locked(market.liquidity, liquidity, pos.counter_collateral@));
}

/// Opening a position conserves collateral: what the trader deposits (the
/// collateral and the crank fee) is the position's active collateral plus
/// the trading, delta neutrality and crank fees; the active collateral left
/// is strictly positive; and exactly the counter collateral moves from
/// unlocked to locked liquidity.
pub proof fn lemma_open_conserves(
    config: Config,
    market: OpenMarket,
    params: OpenPositionParams,
    market_type: MarketType,
    price: PricePoint,
)
    requires
        price.wf(),
        config.max_leverage@ >= scale(),
        market.liquidity.wf(),
        spec_open_draft(config, market, params, market_type, price) is Ok,
    ensures
        ({
            let d = spec_open_draft(config, market, params, market_type, price)->Ok_0;
            &&& d.deposit.collateral@ == d.pos.active_collateral@ + d.trading_fee.collateral@
                + d.delta_neutrality_fee_paid.collateral@ + d.pos.crank_fee.collateral@
            &&& d.pos.active_collateral@ > 0
            &&& moved_to_locked(market.liquidity, d.liquidity, d.pos.counter_collateral@)
        }),
{
    let nic = spec_notional_in_collateral(params.leverage@, params.direction, market_type, params.collateral@)->Some_0;
    let n = price.spec_collateral_to_notional(nic)->Some_0;
    let cc = spec_counter_collateral(
        params.take_profit_trader,
        params.leverage@,
        params.direction,
        market_type,
        price,
        params.collateral@,
        config.max_leverage@,
    )->Ok_0;
    lemma_counter_collateral_positive(
        params.take_profit_trader,
        params.leverage@,
        params.direction,
        market_type,
        price,
        params.collateral@,
        config.max_leverage@,
    );
    let dep = checked(params.collateral@ + params.crank_fee.collateral@)->Some_0;
    let deposit = account_of(dep, price)->Some_0;
    let volume = spec_trade_volume_usd(n, params.collateral@, price, market_type)->Some_0;
    let pos = initial_position(market, params, n, cc);
    assert(in_range(dep));
    assert(deposit.collateral@ == dep);
    assert(pos.counter_collateral@ == cc);
    lemma_charges_conserve(config, market, params, price, pos, deposit, nic, volume);
}

impl OpenPositionDraft {
    /// Sizes, checks and charges a new position (see [`spec_open_draft`]).
    pub fn new(
        config: &Config,
        market: &OpenMarket,
        params: OpenPositionParams,
        market_type: MarketType,
        price_point: &PricePoint,
    ) -> (r: Result<OpenPositionDraft, PerpError>)
        requires
            price_point.wf(),
            config.max_leverage@ >= scale(),
            config.carry_leverage@ >= 0,
            config.delta_neutrality_fee_tax@ >= 0,
            market.long_interest@ >= 0,
            market.short_interest@ >= 0,
            market.liquidity.wf(),
            market.last_position_id < u64::MAX,
            params.collateral@ > 0,
        ensures
            r == spec_open_draft(*config, *market, params, market_type, *price_point),
    {
        market.long_interest.range_fact();
    market.short_interest.range_fact();
    let net = lift(market.long_interest.checked_sub(&market.short_interest))?;
        let leverage = lift(leverage_to_notional(params.leverage, params.direction, market_type))?;
        let nic = lift(leverage.checked_mul(&params.collateral))?;
        let notional_size = lift(price_point.collateral_to_notional(&nic))?;
        if let Some(sa) = params.slippage_assert {
            do_slippage_assert(
                config.delta_neutrality_fee_cap,
                config.delta_neutrality_fee_sensitivity,
                net,
                market.delta_neutrality_fund,
                sa,
                notional_size,
                market_type,
                None,
                price_point,
            )?;
        }
        let counter_collateral = take_profit_counter_collateral(
            params.take_profit_trader,
            params.leverage,
            params.direction,
            market_type,
            price_point,
            params.collateral,
            config.max_leverage,
        )?;
        let deposit_collateral = lift(params.collateral.checked_add(&params.crank_fee.collateral))?;
        let deposit = single_payment(deposit_collateral, price_point)?;
        let pos = Position {
            id: market.last_position_id + 1,
            notional_size,
            active_collateral: params.collateral,
            counter_collateral,
            liquidation_margin: LiquidationMargin {
                borrow: Number::zero(),
                funding: Number::zero(),
                delta_neutrality: Number::zero(),
                crank: Number::zero(),
            },
            borrow_fee: zero_fee_account(),
            funding_fee: zero_fee_account(),
            crank_fee: params.crank_fee,
        };
        let volume = trade_volume_usd(&pos, price_point, market_type)?;
        position_validate_leverage_data(config.max_leverage, market_type, &pos, price_point, None)?;
        validate_minimum_deposit_collateral(config.minimum_deposit_usd, params.collateral, price_point)?;

        open_charges(config, market, params, price_point, pos, deposit, nic, volume)
    }
}

/// The total of a liquidation margin.
pub open spec fn spec_margin_total(m: LiquidationMargin) -> Option<int> {
    match checked(m.borrow@ + m.funding@) {
        None => None,
        Some(a) => match checked(a + m.delta_neutrality@) {
            None => None,
            Some(b) => checked(b + m.crank@),
        },
    }
}

/// The total of a liquidation margin; `None` on overflow.
pub fn margin_total(m: &LiquidationMargin) -> (r: Option<Number>)
    ensures
        opt_view(r) == spec_margin_total(*m),
{
    let a = m.borrow.checked_add(&m.funding)?;
    let b = a.checked_add(&m.delta_neutrality)?;
    b.checked_add(&m.crank)
}

/// Completing the opening of a position: with the liquidation margin that
/// the position's own model sets aside, its active collateral must cover
/// the margin, and the open interest on its side grows by its notional size
/// within the delta neutrality caps.
pub open spec fn spec_open_exec(
    draft: OpenPositionDraft,
    liquidation_margin: LiquidationMargin,
    long_interest: int,
    short_interest: int,
    config: Config,
    market_type: MarketType,
) -> Result<OpenPositionExec, PerpError> {
    let n = draft.pos.notional_size@;
    match spec_margin_total(liquidation_margin) {
        None => Err(PerpError::Arithmetic),
        Some(total) => if draft.pos.active_collateral@ < total {
            Err(PerpError::InsufficientMargin { active_collateral: draft.pos.active_collateral, liquidation_margin: number_of(total) })
        } else {
            match spec_adjust_open_interest(
                long_interest,
                short_interest,
                n,
                if n >= 0 {
                    DirectionToNotional::Long
                } else {
                    DirectionToNotional::Short
                },
                true,
                config.delta_neutrality_fee_cap,
                config.delta_neutrality_fee_sensitivity,
                market_type,
            ) {
                Err(e) => Err(e),
                Ok(open_interest) => Ok(
                    OpenPositionExec {
                        draft: OpenPositionDraft { pos: Position { liquidation_margin, ..draft.pos }, ..draft },
                        open_interest,
                    },
                ),
            }
        },
    }
}

impl OpenPositionExec {
    /// Completes a draft with its liquidation margin (see
    /// [`spec_open_exec`]). The margin is computed by the position model,
    /// from the draft's position, the price and the configuration.
    pub fn new(
        draft: OpenPositionDraft,
        liquidation_margin: LiquidationMargin,
        market: &OpenMarket,
        config: &Config,
        market_type: MarketType,
    ) -> (r: Result<OpenPositionExec, PerpError>)
        requires
            market.long_interest@ >= 0,
            market.short_interest@ >= 0,
        ensures
            r == spec_open_exec(draft, liquidation_margin, market.long_interest@, market.short_interest@, *config, market_type),
    {
        let total = lift(margin_total(&liquidation_margin))?;
        if draft.pos.active_collateral.lt(&total) {
            return Err(PerpError::InsufficientMargin { active_collateral: draft.pos.active_collateral, liquidation_margin: total });
        }
        let open_interest = check_adjust_net_open_interest(
            market.long_interest,
            market.short_interest,
            draft.pos.notional_size,
            draft.pos.direction(),
            true,
            config.delta_neutrality_fee_cap,
            config.delta_neutrality_fee_sensitivity,
            market_type,
        )?;
        Ok(
            OpenPositionExec {
                draft: OpenPositionDraft { pos: Position { liquidation_margin, ..draft.pos }, ..draft },
                open_interest,
            },
        )
    }
}

} // verus!
