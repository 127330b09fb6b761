use levana_perps::close::{ClosePositionExec, ClosePositionInstructions, PositionCloseReason};
use levana_perps::config::{Config, MaxLiquidity};
use levana_perps::liquifund::{liquifund_decision, next_liquifunding, LiquifundDecision};
use levana_perps::dnf::AdjustOpenInterestResult;
use levana_perps::error::PerpError;
use levana_perps::funding::LiquidityStats;
use levana_perps::lock::LiquidityUpdate;
use levana_perps::number::Number;
use levana_perps::position::{FeeAccount, LiquidationMargin, Position};
use levana_perps::price::{MarketType, PricePoint};
use levana_perps::update::{
    check_direction_kept, update_leverage_new_notional_size, update_size_new_notional_size, MarketTotals,
    PositionAccounts, UpdatePositionCollateralExec, UpdatePositionLeverageExec, UpdatePositionMaxGainsExec,
    UpdatePositionSizeExec,
};

/// Parses a decimal such as "-9" or "0.05" into a number.
fn num(s: &str) -> Number {
    let (negative, digits) = match s.strip_prefix('-') {
        Some(rest) => (true, rest),
        None => (false, s),
    };
    let (whole, frac) = match digits.split_once('.') {
        Some((w, f)) => (w, f),
        None => (digits, ""),
    };
    let mut atoms: i128 = whole.parse::<i128>().unwrap() * 1_000_000_000_000_000_000;
    let mut scale: i128 = 100_000_000_000_000_000;
    for c in frac.chars() {
        atoms += (c.to_digit(10).unwrap() as i128) * scale;
        scale /= 10;
    }
    if negative {
        atoms = -atoms;
    }
    Number::from_atoms(atoms).unwrap()
}

fn price_one() -> PricePoint {
    PricePoint {
        timestamp: 1,
        price_notional: num("1"),
        price_usd: num("1"),
        price_base: num("1"),
        is_notional_usd: false,
        market_type: MarketType::CollateralIsQuote,
    }
}

fn config() -> Config {
    Config {
        trading_fee_notional_size: num("0.001"),
        trading_fee_counter_collateral: num("0.001"),
        crank_execs: 7,
        max_leverage: num("30"),
        carry_leverage: num("10"),
        mute_events: false,
        liquifunding_delay_seconds: 86400,
        price_update_too_old_seconds: 1800,
        staleness_seconds: 7200,
        unstake_period_seconds: 3600,
        limit_order_fee: num("0"),
        minimum_deposit_usd: num("5"),
        unpend_limit: 50,
        liquifunding_delay_fuzz_seconds: 3600,
        max_liquidity: MaxLiquidity::Unlimited,
        disable_position_nft_exec: false,
        liquidity_cooldown_seconds: 3600,
        delta_neutrality_fee_cap: num("1"),
        delta_neutrality_fee_sensitivity: num("10000"),
        delta_neutrality_fee_tax: num("0.05"),
        funding_rate_max_annualized: num("0.9"),
        funding_rate_sensitivity: num("1"),
        borrow_fee_sensitivity: num("0.08333"),
        borrow_fee_rate_min_annualized: num("0.01"),
        borrow_fee_rate_max_annualized: num("0.6"),
        target_utilization: num("0.5"),
        min_xlp_rewards_multiplier: num("1"),
        max_xlp_rewards_multiplier: num("2"),
        protocol_tax: num("0.3"),
        crank_fee_reward: num("0.1"),
        crank_fee_charged: num("0.1"),
        referral_reward_ratio: num("0.05"),
    }
}

fn stats(locked: &str, unlocked: &str) -> LiquidityStats {
    LiquidityStats { locked: num(locked), unlocked: num(unlocked), total_lp: num("1000"), total_xlp: num("0") }
}

fn account(c: &str) -> FeeAccount {
    FeeAccount { collateral: num(c), usd: num(c) }
}

fn position(notional: &str, active: &str) -> Position {
    Position {
        id: 7,
        notional_size: num(notional),
        active_collateral: num(active),
        counter_collateral: num("250"),
        liquidation_margin: LiquidationMargin { borrow: num("1"), funding: num("1"), delta_neutrality: num("100"), crank: num("1") },
        borrow_fee: account("0"),
        funding_fee: account("0"),
        crank_fee: account("0.1"),
    }
}

fn accounts() -> PositionAccounts {
    PositionAccounts {
        pos: position("500", "100"),
        deposit: account("100.1"),
        trading_fee: account("0.75"),
        delta_neutrality_fee: account("0"),
    }
}

fn totals() -> MarketTotals {
    MarketTotals {
        long_interest: num("500"),
        short_interest: num("0"),
        delta_neutrality_fund: num("20"),
        liquidity: stats("250", "750"),
    }
}

#[test]
fn collateral_added_lowers_leverage() {
    let e = UpdatePositionCollateralExec::new(&config(), accounts(), num("100"), &price_one(), MarketType::CollateralIsQuote)
        .unwrap();
    assert_eq!(e.accounts.pos.active_collateral, num("200"));
    assert_eq!(e.accounts.pos.notional_size, num("500"));
    assert_eq!(e.accounts.deposit, account("200.1"));
    assert_eq!(e.trade_volume, num("0"));
    assert_eq!(e.user_refund, None);
}

#[test]
fn collateral_withdrawn_is_refunded() {
    let e = UpdatePositionCollateralExec::new(&config(), accounts(), num("-50"), &price_one(), MarketType::CollateralIsQuote)
        .unwrap();
    assert_eq!(e.accounts.pos.active_collateral, num("50"));
    assert_eq!(e.user_refund, Some(num("50")));
}

#[test]
fn collateral_withdrawal_refused_above_max_leverage() {
    let r = UpdatePositionCollateralExec::new(&config(), accounts(), num("-99"), &price_one(), MarketType::CollateralIsQuote);
    assert_eq!(
        r,
        Err(PerpError::TraderLeverageOutOfRange {
            high_allowed: num("30"),
            new_leverage: num("500"),
            current_leverage: Some(num("5")),
        })
    );
    let all = UpdatePositionCollateralExec::new(&config(), accounts(), num("-100"), &price_one(), MarketType::CollateralIsQuote);
    assert_eq!(all, Err(PerpError::ActiveCollateralExhausted));
}

#[test]
fn size_doubled_charges_fees() {
    let e = UpdatePositionSizeExec::new(&config(), &totals(), accounts(), num("100"), &price_one(), MarketType::CollateralIsQuote)
        .unwrap();
    let c = e.charges;
    assert_eq!(c.accounts.pos.notional_size, num("1000"));
    assert_eq!(c.accounts.pos.counter_collateral, num("500"));
    assert_eq!(c.trading_fee_delta, num("0.75"));
    assert_eq!(c.accounts.trading_fee, account("1.5"));
    assert_eq!(c.delta_neutrality_fee.fee, num("37.5"));
    assert_eq!(c.delta_neutrality_fee.total_funds_after, num("55.625"));
    assert_eq!(c.accounts.pos.active_collateral, num("161.75"));
    assert_eq!(c.accounts.deposit, account("200.1"));
    assert_eq!(c.open_interest, AdjustOpenInterestResult::Long(num("1000")));
    assert_eq!(c.liquidity_update, Some(LiquidityUpdate::Lock(stats("500", "500"))));
    assert_eq!(e.trade_volume, num("500"));
    assert_eq!(e.user_refund, None);
}

#[test]
fn size_cannot_drop_to_zero() {
    let r = UpdatePositionSizeExec::new(&config(), &totals(), accounts(), num("-100"), &price_one(), MarketType::CollateralIsQuote);
    assert_eq!(r, Err(PerpError::ActiveCollateralExhausted));
}

#[test]
fn leverage_doubled_keeps_counter_ratio() {
    let e = UpdatePositionLeverageExec::new(&config(), &totals(), accounts(), num("1000"), &price_one(), MarketType::CollateralIsQuote)
        .unwrap();
    let c = e.charges;
    assert_eq!(c.accounts.pos.counter_collateral, num("500"));
    assert_eq!(c.trading_fee_delta, num("0.75"));
    assert_eq!(c.delta_neutrality_fee.fee, num("37.5"));
    assert_eq!(c.accounts.pos.active_collateral, num("61.75"));
    assert_eq!(c.liquidity_update, Some(LiquidityUpdate::Lock(stats("500", "500"))));
    assert_eq!(e.trade_volume, num("500"));
}

#[test]
fn leverage_to_zero_notional_refused() {
    let r = UpdatePositionLeverageExec::new(&config(), &totals(), accounts(), num("0"), &price_one(), MarketType::CollateralIsQuote);
    assert_eq!(r, Err(PerpError::ZeroNotionalSize));
}

#[test]
fn max_gains_raised_locks_more() {
    let e = UpdatePositionMaxGainsExec::new(&config(), &totals(), accounts(), num("300"), &price_one(), MarketType::CollateralIsQuote)
        .unwrap();
    assert_eq!(e.trading_fee_delta, num("0.05"));
    assert_eq!(e.accounts.pos.active_collateral, num("99.95"));
    assert_eq!(e.accounts.pos.counter_collateral, num("300"));
    assert_eq!(e.liquidity_update, Some(LiquidityUpdate::Lock(stats("300", "700"))));
}

#[test]
fn max_gains_lowered_unlocks_for_free() {
    let e = UpdatePositionMaxGainsExec::new(&config(), &totals(), accounts(), num("200"), &price_one(), MarketType::CollateralIsQuote)
        .unwrap();
    assert_eq!(e.trading_fee_delta, num("0"));
    assert_eq!(e.accounts.pos.active_collateral, num("100"));
    assert_eq!(e.liquidity_update, Some(LiquidityUpdate::Unlock(stats("200", "800"))));
}

#[test]
fn new_notional_sizes_for_updates() {
    let pos = position("500", "100");
    assert_eq!(update_leverage_new_notional_size(&pos, num("10"), &price_one(), MarketType::CollateralIsQuote), Ok(num("1000")));
    assert_eq!(update_size_new_notional_size(&pos, num("100")), Ok(num("1000")));
}

#[test]
fn direction_to_base_flip_refused() {
    let before = position("50", "100");
    let after = position("200", "100");
    assert_eq!(check_direction_kept(&before, &after, &price_one(), MarketType::CollateralIsBase), Err(PerpError::DirectionToBaseFlipped));
    assert_eq!(check_direction_kept(&before, &before, &price_one(), MarketType::CollateralIsBase), Ok(()));
}

#[test]
fn closing_returns_collateral_and_liquidity() {
    let ins = ClosePositionInstructions {
        accounts: accounts(),
        capped_exposure: num("50"),
        additional_losses: num("0"),
        settlement_price: price_one(),
        reason: PositionCloseReason::Direct,
    };
    let e = ClosePositionExec::new(&config(), &totals(), ins, MarketType::CollateralIsQuote, num("1")).unwrap();
    assert_eq!(e.delta_neutrality_fee.fee, num("-12.5"));
    assert_eq!(e.delta_neutrality_fee.total_funds_after, num("7.5"));
    assert_eq!(e.open_interest, AdjustOpenInterestResult::Long(num("0")));
    assert_eq!(e.trader_collateral_to_send, Some(num("162.5")));
    assert_eq!(e.liquidity_locked, stats("250", "750"));
    assert_eq!(e.liquidity_unlock, Some(stats("50", "950")));
    assert_eq!(e.closed_position.pnl_collateral, num("62.4"));
    assert_eq!(e.closed_position.pnl_usd, num("62.4"));
    assert_eq!(e.closed_position.delta_neutrality_fee, account("-12.5"));
}

#[test]
fn closing_refuses_exposure_beyond_counter_collateral() {
    let ins = ClosePositionInstructions {
        accounts: accounts(),
        capped_exposure: num("251"),
        additional_losses: num("0"),
        settlement_price: price_one(),
        reason: PositionCloseReason::Direct,
    };
    let r = ClosePositionExec::new(&config(), &totals(), ins, MarketType::CollateralIsQuote, num("1"));
    assert_eq!(r, Err(PerpError::ExposureExceedsCounterCollateral));
}

fn margin_with(borrow: &str) -> LiquidationMargin {
    LiquidationMargin { borrow: num(borrow), funding: num("2"), delta_neutrality: num("3"), crank: num("0.5") }
}

#[test]
fn liquifunded_position_stays_open_with_new_margin() {
    let pos = position("500", "100");
    let (d, locked) =
        liquifund_decision(pos, num("10"), stats("250", "750"), &price_one(), margin_with("1"), true, MarketType::CollateralIsQuote)
            .unwrap();
    assert_eq!(d, LiquifundDecision::Open(Position { liquidation_margin: margin_with("1"), ..pos }));
    assert_eq!(locked, stats("240", "750"));
}

#[test]
fn liquifunded_position_below_margin_is_liquidated() {
    let pos = position("500", "100");
    let (d, _) =
        liquifund_decision(pos, num("0"), stats("250", "750"), &price_one(), margin_with("94.5"), true, MarketType::CollateralIsQuote)
            .unwrap();
    assert_eq!(d, LiquifundDecision::Liquidated(pos));
}

#[test]
fn liquifunded_position_flipping_direction_takes_max_gains() {
    let pos = position("500", "100");
    let (d, _) =
        liquifund_decision(pos, num("0"), stats("250", "750"), &price_one(), margin_with("1"), false, MarketType::CollateralIsQuote)
            .unwrap();
    assert_eq!(d, LiquifundDecision::MaxGains(pos));
    let r = liquifund_decision(pos, num("300"), stats("250", "750"), &price_one(), margin_with("1"), true, MarketType::CollateralIsQuote);
    assert_eq!(r, Err(PerpError::NegativeLockedLiquidity));
}

#[test]
fn next_liquifunding_is_brought_forward_a_little() {
    assert_eq!(next_liquifunding(1000, 86400, 3600, 7205), 87395);
    assert_eq!(next_liquifunding(1000, 86400, 0, 7205), 87400);
    assert_eq!(next_liquifunding(1000, 10, 100, 50), 1010);
}
