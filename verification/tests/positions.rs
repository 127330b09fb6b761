use levana_perps::config::{Config, MaxLiquidity};
use levana_perps::dnf::{calc_delta_neutrality_fee, AdjustOpenInterestResult};
use levana_perps::error::PerpError;
use levana_perps::funding::LiquidityStats;
use levana_perps::lock::{liquidity_lock, liquidity_unlock, liquidity_update, liquidity_update_locked, min_unlocked_liquidity, LiquidityUpdate};
use levana_perps::number::Number;
use levana_perps::open::{margin_total, OpenMarket, OpenPositionDraft, OpenPositionExec, OpenPositionParams};
use levana_perps::position::{FeeAccount, LiquidationMargin, Position};
use levana_perps::price::{DirectionToBase, MarketType, PricePoint};
use levana_perps::take_profit::TakeProfitTrader;
use levana_perps::validate::{
    do_slippage_assert, position_validate_leverage_data, position_validate_trader_leverage,
    validate_minimum_deposit_collateral, SlippageAssert,
};

/// Parses a decimal such as "-9" or "0.05" into a number.
fn num(s: &str) -> Number {
    let (negative, digits) = match s.strip_prefix('-') {
        Some(rest) => (true, rest),
        None => (false, s),
    };
    let (whole, frac) = match digits.split_once('.') {
        Some((w, f)) => (w, f),
        None => (digits, ""),
    };
    let mut atoms: i128 = whole.parse::<i128>().unwrap() * 1_000_000_000_000_000_000;
    let mut scale: i128 = 100_000_000_000_000_000;
    for c in frac.chars() {
        atoms += (c.to_digit(10).unwrap() as i128) * scale;
        scale /= 10;
    }
    if negative {
        atoms = -atoms;
    }
    Number::from_atoms(atoms).unwrap()
}

fn price_one() -> PricePoint {
    PricePoint {
        timestamp: 1,
        price_notional: num("1"),
        price_usd: num("1"),
        price_base: num("1"),
        is_notional_usd: false,
        market_type: MarketType::CollateralIsQuote,
    }
}

fn config() -> Config {
    Config {
        trading_fee_notional_size: num("0.001"),
        trading_fee_counter_collateral: num("0.001"),
        crank_execs: 7,
        max_leverage: num("30"),
        carry_leverage: num("10"),
        mute_events: false,
        liquifunding_delay_seconds: 86400,
        price_update_too_old_seconds: 1800,
        staleness_seconds: 7200,
        unstake_period_seconds: 3600,
        limit_order_fee: num("0"),
        minimum_deposit_usd: num("5"),
        unpend_limit: 50,
        liquifunding_delay_fuzz_seconds: 3600,
        max_liquidity: MaxLiquidity::Unlimited,
        disable_position_nft_exec: false,
        liquidity_cooldown_seconds: 3600,
        delta_neutrality_fee_cap: num("1"),
        delta_neutrality_fee_sensitivity: num("10000"),
        delta_neutrality_fee_tax: num("0.05"),
        funding_rate_max_annualized: num("0.9"),
        funding_rate_sensitivity: num("1"),
        borrow_fee_sensitivity: num("0.08333"),
        borrow_fee_rate_min_annualized: num("0.01"),
        borrow_fee_rate_max_annualized: num("0.6"),
        target_utilization: num("0.5"),
        min_xlp_rewards_multiplier: num("1"),
        max_xlp_rewards_multiplier: num("2"),
        protocol_tax: num("0.3"),
        crank_fee_reward: num("0.1"),
        crank_fee_charged: num("0.1"),
        referral_reward_ratio: num("0.05"),
    }
}

fn stats(locked: &str, unlocked: &str) -> LiquidityStats {
    LiquidityStats { locked: num(locked), unlocked: num(unlocked), total_lp: num("1000"), total_xlp: num("0") }
}

fn market() -> OpenMarket {
    OpenMarket {
        long_interest: num("0"),
        short_interest: num("0"),
        delta_neutrality_fund: num("0"),
        liquidity: stats("0", "1000"),
        last_position_id: 41,
    }
}

fn params(collateral: &str, leverage: &str) -> OpenPositionParams {
    OpenPositionParams {
        collateral: num(collateral),
        crank_fee: FeeAccount { collateral: num("0.1"), usd: num("0.1") },
        leverage: num(leverage),
        direction: DirectionToBase::Long,
        slippage_assert: None,
        take_profit_trader: TakeProfitTrader::Finite(num("1.5")),
    }
}

fn zero_account() -> FeeAccount {
    FeeAccount { collateral: num("0"), usd: num("0") }
}

fn margin(borrow: &str) -> LiquidationMargin {
    LiquidationMargin { borrow: num(borrow), funding: num("2"), delta_neutrality: num("3"), crank: num("0.5") }
}

fn position(notional: &str, active: &str) -> Position {
    Position {
        id: 1,
        notional_size: num(notional),
        active_collateral: num(active),
        counter_collateral: num("50"),
        liquidation_margin: margin("1"),
        borrow_fee: zero_account(),
        funding_fee: zero_account(),
        crank_fee: zero_account(),
    }
}

#[test]
fn trader_leverage_within_maximum_passes() {
    let r = position_validate_trader_leverage(num("30"), MarketType::CollateralIsQuote, num("10"), None);
    assert_eq!(r, Ok(()));
}

#[test]
fn trader_leverage_above_maximum_refused() {
    let r = position_validate_trader_leverage(num("30"), MarketType::CollateralIsQuote, num("-40"), None);
    assert_eq!(
        r,
        Err(PerpError::TraderLeverageOutOfRange { high_allowed: num("30"), new_leverage: num("40"), current_leverage: None })
    );
}

#[test]
fn trader_leverage_may_be_reduced_above_maximum() {
    let r = position_validate_trader_leverage(num("30"), MarketType::CollateralIsQuote, num("40"), Some(num("50")));
    assert_eq!(r, Ok(()));
    let raised = position_validate_trader_leverage(num("30"), MarketType::CollateralIsQuote, num("50"), Some(num("40")));
    assert!(matches!(raised, Err(PerpError::TraderLeverageOutOfRange { .. })));
}

#[test]
fn trader_leverage_zero_refused() {
    let r = position_validate_trader_leverage(num("30"), MarketType::CollateralIsQuote, num("0"), None);
    assert_eq!(
        r,
        Err(PerpError::TraderLeverageOutOfRange { high_allowed: num("30"), new_leverage: num("0"), current_leverage: None })
    );
}

#[test]
fn trader_leverage_negative_maximum_refused() {
    let r = position_validate_trader_leverage(num("-1"), MarketType::CollateralIsQuote, num("10"), None);
    assert_eq!(r, Err(PerpError::NegativeMaxLeverage));
}

#[test]
fn trader_leverage_in_collateral_is_base_market() {
    // A leverage to notional of -9 is a leverage to base of 10.
    let ok = position_validate_trader_leverage(num("10"), MarketType::CollateralIsBase, num("-9"), None);
    assert_eq!(ok, Ok(()));
    let refused = position_validate_trader_leverage(num("9"), MarketType::CollateralIsBase, num("-9"), None);
    assert_eq!(
        refused,
        Err(PerpError::TraderLeverageOutOfRange { high_allowed: num("9"), new_leverage: num("10"), current_leverage: None })
    );
}

#[test]
fn leverage_data_refuses_direction_change() {
    let current = position("100", "10");
    let flipped = position("-100", "10");
    let r = position_validate_leverage_data(num("30"), MarketType::CollateralIsQuote, &flipped, &price_one(), Some(&current));
    assert_eq!(r, Err(PerpError::DirectionChanged));
    let same = position("200", "10");
    let ok = position_validate_leverage_data(num("30"), MarketType::CollateralIsQuote, &same, &price_one(), Some(&current));
    assert_eq!(ok, Ok(()));
}

#[test]
fn minimum_deposit_allows_ten_percent_dip() {
    let ok = validate_minimum_deposit_collateral(num("5"), num("4.5"), &price_one());
    assert_eq!(ok, Ok(()));
    let refused = validate_minimum_deposit_collateral(num("5"), num("4.4"), &price_one());
    assert_eq!(
        refused,
        Err(PerpError::MinimumDeposit { deposit_collateral: num("4.4"), deposit_usd: num("4.4"), minimum_usd: num("5") })
    );
}

#[test]
fn dnf_fee_calculated_without_charging() {
    let fee = calc_delta_neutrality_fee(num("1"), num("1000"), num("0"), num("10"), price_one(), None, num("0"));
    assert_eq!(fee, Ok(num("0.05")));
}

fn slippage(delta: &str, tolerance: &str) -> Result<(), PerpError> {
    do_slippage_assert(
        num("1"),
        num("1000"),
        num("0"),
        num("0"),
        SlippageAssert { price: num("1"), tolerance: num(tolerance) },
        num(delta),
        MarketType::CollateralIsQuote,
        None,
        &price_one(),
    )
}

#[test]
fn slippage_within_tolerance_passes() {
    assert_eq!(slippage("10", "0.01"), Ok(()));
    assert_eq!(slippage("0", "0"), Ok(()));
}

#[test]
fn slippage_beyond_tolerance_refused() {
    // The fee of 0.05 on 10 notional raises the price to 1.005.
    assert_eq!(
        slippage("10", "0.001"),
        Err(PerpError::SlippageExceeded { slippage: Some(num("0.5")), price_with_fee: num("1.005"), asserted_price: num("1") })
    );
}

#[test]
fn min_unlocked_liquidity_over_carry_leverage() {
    assert_eq!(min_unlocked_liquidity(num("-50"), &price_one(), num("10")), Ok(num("5")));
    assert_eq!(min_unlocked_liquidity(num("50"), &price_one(), num("0")), Err(PerpError::ZeroCarryLeverage));
}

#[test]
fn lock_moves_unlocked_to_locked() {
    let r = liquidity_lock(stats("0", "100"), num("30"), &price_one(), num("0"), Some(num("50")), num("10"));
    assert_eq!(r, Ok(stats("30", "70")));
}

#[test]
fn lock_refused_without_enough_unlocked() {
    let r = liquidity_lock(stats("0", "100"), num("96"), &price_one(), num("0"), Some(num("50")), num("10"));
    assert_eq!(r, Err(PerpError::Liquidity { requested: num("96"), total_unlocked: num("100"), allowed: num("5") }));
}

#[test]
fn unlock_and_update_locked() {
    assert_eq!(
        liquidity_unlock(stats("30", "100"), num("40")),
        Err(PerpError::InsufficientLiquidityForUnlock { requested: num("40"), total_locked: num("30") })
    );
    assert_eq!(liquidity_unlock(stats("30", "100"), num("10")), Ok(stats("20", "110")));
    assert_eq!(liquidity_update_locked(stats("30", "100"), num("-40")), Err(PerpError::NegativeLockedLiquidity));
    assert_eq!(liquidity_update_locked(stats("30", "100"), num("5")), Ok(stats("35", "100")));
}

#[test]
fn liquidity_update_follows_counter_collateral() {
    let s = stats("30", "100");
    assert_eq!(liquidity_update(s, num("0"), &price_one(), num("0"), num("10")), Ok(None));
    assert_eq!(
        liquidity_update(s, num("20"), &price_one(), num("0"), num("10")),
        Ok(Some(LiquidityUpdate::Lock(stats("50", "80"))))
    );
    assert_eq!(
        liquidity_update(s, num("-20"), &price_one(), num("0"), num("10")),
        Ok(Some(LiquidityUpdate::Unlock(stats("10", "120"))))
    );
}

#[test]
fn open_position_sizes_and_charges() {
    let d = OpenPositionDraft::new(&config(), &market(), params("100", "5"), MarketType::CollateralIsQuote, &price_one())
        .unwrap();
    assert_eq!(d.pos.id, 42);
    assert_eq!(d.pos.notional_size, num("500"));
    assert_eq!(d.pos.counter_collateral, num("250"));
    assert_eq!(d.deposit, FeeAccount { collateral: num("100.1"), usd: num("100.1") });
    assert_eq!(d.trade_volume_usd, num("500"));
    assert_eq!(d.trading_fee, FeeAccount { collateral: num("0.75"), usd: num("0.75") });
    assert_eq!(d.delta_neutrality_fee.fee, num("12.5"));
    assert_eq!(d.delta_neutrality_fee.protocol_fees, num("0.625"));
    assert_eq!(d.delta_neutrality_fee.total_funds_after, num("11.875"));
    assert_eq!(d.pos.active_collateral, num("86.75"));
    assert_eq!(d.liquidity, stats("250", "750"));
    // The deposit is the active collateral plus the fees.
    let paid = d
        .pos
        .active_collateral
        .checked_add(&d.trading_fee.collateral)
        .unwrap()
        .checked_add(&d.delta_neutrality_fee_paid.collateral)
        .unwrap()
        .checked_add(&d.pos.crank_fee.collateral)
        .unwrap();
    assert_eq!(paid, d.deposit.collateral);
}

#[test]
fn open_position_completed_with_margin() {
    let d = OpenPositionDraft::new(&config(), &market(), params("100", "5"), MarketType::CollateralIsQuote, &price_one())
        .unwrap();
    assert_eq!(margin_total(&margin("1")), Some(num("6.5")));
    let e = OpenPositionExec::new(d, margin("1"), &market(), &config(), MarketType::CollateralIsQuote).unwrap();
    assert_eq!(e.open_interest, AdjustOpenInterestResult::Long(num("500")));
    assert_eq!(e.draft.pos.liquidation_margin, margin("1"));
    let short = OpenPositionExec::new(d, margin("94.5"), &market(), &config(), MarketType::CollateralIsQuote);
    assert_eq!(
        short,
        Err(PerpError::InsufficientMargin { active_collateral: num("86.75"), liquidation_margin: num("100") })
    );
}

#[test]
fn open_position_slippage_refused() {
    let mut p = params("100", "5");
    p.slippage_assert = Some(SlippageAssert { price: num("1"), tolerance: num("0.01") });
    let r = OpenPositionDraft::new(&config(), &market(), p, MarketType::CollateralIsQuote, &price_one());
    assert_eq!(
        r,
        Err(PerpError::SlippageExceeded { slippage: Some(num("2.5")), price_with_fee: num("1.025"), asserted_price: num("1") })
    );
}

#[test]
fn open_position_minimum_deposit_refused() {
    let r = OpenPositionDraft::new(&config(), &market(), params("4", "5"), MarketType::CollateralIsQuote, &price_one());
    assert_eq!(
        r,
        Err(PerpError::MinimumDeposit { deposit_collateral: num("4"), deposit_usd: num("4"), minimum_usd: num("5") })
    );
}

#[test]
fn open_position_leverage_refused() {
    let r = OpenPositionDraft::new(&config(), &market(), params("100", "40"), MarketType::CollateralIsQuote, &price_one());
    assert_eq!(
        r,
        Err(PerpError::TraderLeverageOutOfRange { high_allowed: num("30"), new_leverage: num("40"), current_leverage: None })
    );
}
