use levana_perps::close::close_position_settlement;
use levana_perps::config::{update_config, Config, ConfigError, ConfigUpdate, MaxLiquidity};
use levana_perps::error::PerpError;
use levana_perps::funding::{FeeType, FundingTotals, LiquidityStats, LpAndXlp};
use levana_perps::liquifund::{position_liquifund, LiquifundResult, PriceExposure};
use levana_perps::gather::SpotPriceConfig;
use levana_perps::number::Number;
use levana_perps::position::{trade_volume_usd, trade_volume_usd_from_closed, ClosedPosition, FeeAccount, LiquidationMargin, Position};
use levana_perps::price::{get_price_usd, DirectionToBase, MarketId, MarketType, PricePoint};
use levana_perps::settlement::{position_fee_settlement, MaybeClosedPosition};
use levana_perps::crank::CrankWorkInfo;
use levana_perps::deferred::DeferredExecStatus;
use levana_perps::status::{newest_deferred_execution, next_crank_work, status_figures};
use levana_perps::take_profit::{notional_size, take_profit_counter_collateral, TakeProfitTrader};

/// Parses a decimal such as "-9" or "0.05" into a number.
fn num(s: &str) -> Number {
    let (negative, digits) = match s.strip_prefix('-') {
        Some(rest) => (true, rest),
        None => (false, s),
    };
    let (whole, frac) = match digits.split_once('.') {
        Some((w, f)) => (w, f),
        None => (digits, ""),
    };
    let mut atoms: i128 = whole.parse::<i128>().unwrap() * 1_000_000_000_000_000_000;
    let mut scale: i128 = 100_000_000_000_000_000;
    for c in frac.chars() {
        atoms += (c.to_digit(10).unwrap() as i128) * scale;
        scale /= 10;
    }
    if negative {
        atoms = -atoms;
    }
    Number::from_atoms(atoms).unwrap()
}

fn price(p: &str, usd: &str) -> PricePoint {
    PricePoint {
        timestamp: 1,
        price_notional: num(p),
        price_usd: num(usd),
        price_base: num(p),
        is_notional_usd: false,
        market_type: MarketType::CollateralIsQuote,
    }
}

fn zero_account() -> FeeAccount {
    FeeAccount { collateral: num("0"), usd: num("0") }
}

fn position(active: &str) -> Position {
    Position {
        id: 1,
        notional_size: num("10"),
        active_collateral: num(active),
        counter_collateral: num("50"),
        liquidation_margin: LiquidationMargin {
            borrow: num("2"),
            funding: num("3"),
            delta_neutrality: num("1"),
            crank: num("1"),
        },
        borrow_fee: zero_account(),
        funding_fee: zero_account(),
        crank_fee: zero_account(),
    }
}

fn totals() -> FundingTotals {
    FundingTotals { total_net_funding_paid: num("0"), total_funding_margin: num("100") }
}

#[test]
fn close_settles_gain() {
    let s = close_position_settlement(num("10"), num("20"), num("1"), num("5"), num("0"), num("12")).unwrap();
    assert_eq!(s.active_collateral, num("14"));
    assert_eq!(s.counter_collateral, num("15"));
    assert_eq!(s.additional_lp_funds, num("0"));
    assert_eq!(s.pnl_collateral, num("2"));
}

#[test]
fn close_caps_losses_at_collateral() {
    // A loss of 6 plus 10 more: only what is left after the fee can go.
    let s = close_position_settlement(num("10"), num("20"), num("1"), num("-6"), num("10"), num("10")).unwrap();
    assert_eq!(s.final_exposure, num("-9"));
    assert_eq!(s.active_collateral, num("0"));
    assert_eq!(s.counter_collateral, num("29"));
    assert_eq!(s.additional_lp_funds, num("3"));
}

#[test]
fn close_refuses_outsized_exposure() {
    let r = close_position_settlement(num("10"), num("20"), num("0"), num("-11"), num("0"), num("0"));
    assert_eq!(r.unwrap_err(), PerpError::ExposureExceedsActiveCollateral);
    let r = close_position_settlement(num("10"), num("20"), num("0"), num("21"), num("0"), num("0"));
    assert_eq!(r.unwrap_err(), PerpError::ExposureExceedsCounterCollateral);
    let r = close_position_settlement(num("10"), num("20"), num("11"), num("0"), num("0"), num("0"));
    assert_eq!(r.unwrap_err(), PerpError::NegativeActiveCollateral);
}

#[test]
fn fee_settlement_keeps_position_open() {
    let s = position_fee_settlement(
        position("20"),
        &price("1", "2"),
        MarketType::CollateralIsQuote,
        LpAndXlp { lp: num("1"), xlp: num("0.5") },
        num("2"),
        &totals(),
        num("0.1"),
        true,
        num("1"),
    )
    .unwrap();
    assert_eq!(s.borrow_fee_payment.lp, num("1"));
    assert_eq!(s.funding_fee_payment.amount, num("2"));
    assert_eq!(s.cap_crank_fee.unwrap().amount, num("0.5"));
    assert_eq!(s.funding_payment_event.amount_usd, num("4"));
    assert_eq!(s.funding_payment_event.direction, DirectionToBase::Long);
    assert_eq!(s.borrow_fee_collection.protocol_amount, num("0.15"));
    assert!(s.insufficient_margin_events.is_empty());
    match s.position {
        MaybeClosedPosition::Open(p) => {
            assert_eq!(p.active_collateral, num("16"));
            assert_eq!(p.borrow_fee.collateral, num("1.5"));
            assert_eq!(p.borrow_fee.usd, num("3"));
            assert_eq!(p.funding_fee.collateral, num("2"));
            assert_eq!(p.crank_fee.collateral, num("0.5"));
        }
        MaybeClosedPosition::Liquidated { .. } => panic!("the position can pay its fees"),
    }
}

#[test]
fn fee_settlement_liquidates_when_collateral_runs_out() {
    let s = position_fee_settlement(
        position("3"),
        &price("1", "1"),
        MarketType::CollateralIsQuote,
        LpAndXlp { lp: num("3"), xlp: num("1") },
        num("5"),
        &totals(),
        num("0"),
        false,
        num("0"),
    )
    .unwrap();
    // Borrow capped at 2, funding capped at 3: 5 owed out of 3.
    assert_eq!(s.insufficient_margin_events.len(), 3);
    assert_eq!(s.insufficient_margin_events[0].fee_type, FeeType::Borrow);
    assert_eq!(s.insufficient_margin_events[1].fee_type, FeeType::Funding);
    assert_eq!(s.insufficient_margin_events[2].fee_type, FeeType::Overall);
    assert_eq!(s.insufficient_margin_events[2].requested, num("5"));
    match s.position {
        MaybeClosedPosition::Liquidated { pos, .. } => assert_eq!(pos.active_collateral, num("0.000000001")),
        MaybeClosedPosition::Open(_) => panic!("the position cannot pay its fees"),
    }
}

#[test]
fn fee_settlement_refuses_totals_below_position_margin() {
    // The protocol's funding margin (1) is less than the position's own (3).
    let r = position_fee_settlement(
        position("20"),
        &price("1", "1"),
        MarketType::CollateralIsQuote,
        LpAndXlp { lp: num("0"), xlp: num("0") },
        num("0"),
        &FundingTotals { total_net_funding_paid: num("0"), total_funding_margin: num("1") },
        num("0"),
        false,
        num("0"),
    );
    assert_eq!(r.unwrap_err(), PerpError::TotalMarginBelowPositionMargin);
}

#[test]
fn liquifund_chains_settlement_exposure_and_decision() {
    let settled = position_fee_settlement(
        position("20"),
        &price("1", "1"),
        MarketType::CollateralIsQuote,
        LpAndXlp { lp: num("0"), xlp: num("0") },
        num("0"),
        &totals(),
        num("0"),
        false,
        num("0"),
    )
    .unwrap();
    let stats = LiquidityStats { locked: num("50"), unlocked: num("100"), total_lp: num("1000"), total_xlp: num("0") };
    let margin = LiquidationMargin { borrow: num("1"), funding: num("1"), delta_neutrality: num("1"), crank: num("1") };
    // The trader gained 2: the pool's locked liquidity pays it.
    let exposure = PriceExposure { pos: position("22"), exposure: num("2"), closes: false };
    let (result, locked) = position_liquifund(
        &settled,
        exposure,
        stats,
        &price("1", "1"),
        margin,
        true,
        MarketType::CollateralIsQuote,
        1000,
        3600,
        0,
        7,
    )
    .unwrap();
    match result {
        LiquifundResult::Open { pos, next_liquifunding } => {
            assert_eq!(pos.active_collateral, num("22"));
            assert_eq!(pos.liquidation_margin, margin);
            assert_eq!(next_liquifunding, 4600);
        }
        other => panic!("the position stays open, not {other:?}"),
    }
    assert_eq!(locked.unwrap().locked, num("48"));
    // An exposure that closes the position still moves the locked liquidity.
    let closing = PriceExposure { pos: position("22"), exposure: num("2"), closes: true };
    let (result, locked) = position_liquifund(
        &settled, closing, stats, &price("1", "1"), margin, true, MarketType::CollateralIsQuote, 1000, 3600, 0, 7,
    )
    .unwrap();
    assert_eq!(result, LiquifundResult::ExposureClosed(position("22")));
    assert_eq!(locked.unwrap().locked, num("48"));
    // A position liquidated by its fees goes no further.
    let liquidated = position_fee_settlement(
        position("3"),
        &price("1", "1"),
        MarketType::CollateralIsQuote,
        LpAndXlp { lp: num("3"), xlp: num("1") },
        num("5"),
        &totals(),
        num("0"),
        false,
        num("0"),
    )
    .unwrap();
    let (result, locked) = position_liquifund(
        &liquidated, exposure, stats, &price("1", "1"), margin, true, MarketType::CollateralIsQuote, 1000, 3600, 0, 7,
    )
    .unwrap();
    assert!(matches!(result, LiquifundResult::FeesLiquidated(_)));
    assert!(locked.is_none());
}

#[test]
fn take_profit_sets_counter_collateral() {
    let p = price("100", "1");
    // 10 collateral at 5x long: notional 0.5.
    let n = notional_size(num("5"), DirectionToBase::Long, MarketType::CollateralIsQuote, &p, num("10")).unwrap();
    assert_eq!(n, num("0.5"));
    // Take profit at 150: (150 - 100) * 0.5 = 25, within [50 / 30, 50].
    let cc = take_profit_counter_collateral(
        TakeProfitTrader::Finite(num("150")),
        num("5"),
        DirectionToBase::Long,
        MarketType::CollateralIsQuote,
        &p,
        num("10"),
        num("30"),
    )
    .unwrap();
    assert_eq!(cc, num("25"));
    // Take profit at 1000 asks for 450, capped at the notional value 50.
    let cc = take_profit_counter_collateral(
        TakeProfitTrader::Finite(num("1000")),
        num("5"),
        DirectionToBase::Long,
        MarketType::CollateralIsQuote,
        &p,
        num("10"),
        num("30"),
    )
    .unwrap();
    assert_eq!(cc, num("50"));
    // A take profit below the price is refused for a long.
    let r = take_profit_counter_collateral(
        TakeProfitTrader::Finite(num("90")),
        num("5"),
        DirectionToBase::Long,
        MarketType::CollateralIsQuote,
        &p,
        num("10"),
        num("30"),
    );
    assert_eq!(r.unwrap_err(), PerpError::NegativeCounterCollateral);
    let r = take_profit_counter_collateral(
        TakeProfitTrader::PosInfinity,
        num("5"),
        DirectionToBase::Long,
        MarketType::CollateralIsQuote,
        &p,
        num("10"),
        num("30"),
    );
    assert_eq!(
        r.unwrap_err(),
        PerpError::InvalidInfiniteTakeProfitPrice { market_type: MarketType::CollateralIsQuote, direction: DirectionToBase::Long }
    );
}

#[test]
fn status_swaps_directions_when_base_is_collateral() {
    let p = price("2", "3");
    let f = status_figures(MarketType::CollateralIsBase, num("0.1"), num("-0.2"), num("4"), num("1"), Some(p), num("10"))
        .unwrap();
    assert_eq!(f.long_funding, num("-0.2"));
    assert_eq!(f.short_funding, num("0.1"));
    assert_eq!(f.long_notional, num("1"));
    assert_eq!(f.short_notional, num("4"));
    assert_eq!(f.long_usd, num("6"));
    assert_eq!(f.instant_delta_neutrality_fee_value, num("-0.3"));
    let r = status_figures(MarketType::CollateralIsQuote, num("0"), num("0"), num("4"), num("1"), None, num("10"));
    assert_eq!(r.unwrap_err(), PerpError::MissingSpotPrice);
    // With no open interest, no price is needed.
    let f = status_figures(MarketType::CollateralIsQuote, num("0"), num("0"), num("0"), num("0"), None, num("10")).unwrap();
    assert_eq!(f.long_usd, num("0"));
}

#[test]
fn status_shows_pending_crank_and_deferred_work() {
    // Completed work on the current price point is not shown.
    assert_eq!(next_crank_work(CrankWorkInfo::Completed, 5, 5), None);
    assert_eq!(next_crank_work(CrankWorkInfo::Completed, 5, 7), Some(CrankWorkInfo::Completed));
    assert_eq!(
        next_crank_work(CrankWorkInfo::Liquifunding { position: 3 }, 5, 5),
        Some(CrankWorkInfo::Liquifunding { position: 3 })
    );
    assert_eq!(newest_deferred_execution(DeferredExecStatus::Pending, 42), Some(42));
    assert_eq!(newest_deferred_execution(DeferredExecStatus::Success { executed: 50 }, 42), None);
    assert_eq!(newest_deferred_execution(DeferredExecStatus::Failure { executed: 50 }, 42), None);
}

#[test]
fn trade_volume_of_position() {
    let p = position("20");
    // Leverage 10 * 1 / 20 = 0.5; volume 20 * 0.5 = 10 collateral, 20 USD.
    assert_eq!(trade_volume_usd(&p, &price("1", "2"), MarketType::CollateralIsQuote).unwrap(), num("20"));
}

#[test]
fn price_usd_derived_or_given() {
    let quote_usd = MarketId { base: "ETH".to_string(), quote: "USD".to_string(), market_type: MarketType::CollateralIsQuote };
    assert_eq!(get_price_usd(&num("2000"), None, &quote_usd).unwrap(), num("1"));
    assert_eq!(get_price_usd(&num("2000"), Some(num("2")), &quote_usd).unwrap_err(), PerpError::ConflictingPriceUsd);
    let other = MarketId { base: "ETH".to_string(), quote: "BTC".to_string(), market_type: MarketType::CollateralIsQuote };
    assert_eq!(get_price_usd(&num("0.05"), None, &other).unwrap_err(), PerpError::MissingPriceUsd);
    assert_eq!(get_price_usd(&num("0.05"), Some(num("30000")), &other).unwrap(), num("30000"));
}

fn config() -> Config {
    Config {
        trading_fee_notional_size: num("0.001"),
        trading_fee_counter_collateral: num("0.001"),
        crank_execs: 7,
        max_leverage: num("30"),
        carry_leverage: num("10"),
        mute_events: false,
        liquifunding_delay_seconds: 86400,
        price_update_too_old_seconds: 1800,
        staleness_seconds: 7200,
        unstake_period_seconds: 3600,
        limit_order_fee: num("0"),
        minimum_deposit_usd: num("5"),
        unpend_limit: 50,
        liquifunding_delay_fuzz_seconds: 3600,
        max_liquidity: MaxLiquidity::Unlimited,
        disable_position_nft_exec: false,
        liquidity_cooldown_seconds: 3600,
        delta_neutrality_fee_cap: num("0.005"),
        delta_neutrality_fee_sensitivity: num("50000000"),
        delta_neutrality_fee_tax: num("0.05"),
        funding_rate_max_annualized: num("0.9"),
        funding_rate_sensitivity: num("1"),
        borrow_fee_sensitivity: num("0.08333"),
        borrow_fee_rate_min_annualized: num("0.01"),
        borrow_fee_rate_max_annualized: num("0.6"),
        target_utilization: num("0.5"),
        min_xlp_rewards_multiplier: num("1"),
        max_xlp_rewards_multiplier: num("2"),
        protocol_tax: num("0.3"),
        crank_fee_reward: num("0.1"),
        crank_fee_charged: num("0.1"),
        referral_reward_ratio: num("0.05"),
    }
}

fn empty_update() -> ConfigUpdate {
    ConfigUpdate {
        trading_fee_notional_size: None,
        trading_fee_counter_collateral: None,
        crank_execs: None,
        max_leverage: None,
        carry_leverage: None,
        funding_rate_sensitivity: None,
        funding_rate_max_annualized: None,
        mute_events: None,
        liquifunding_delay_seconds: None,
        price_update_too_old_seconds: None,
        staleness_seconds: None,
        protocol_tax: None,
        unstake_period_seconds: None,
        target_utilization: None,
        borrow_fee_sensitivity: None,
        borrow_fee_rate_min_annualized: None,
        borrow_fee_rate_max_annualized: None,
        max_xlp_rewards_multiplier: None,
        min_xlp_rewards_multiplier: None,
        delta_neutrality_fee_sensitivity: None,
        delta_neutrality_fee_cap: None,
        delta_neutrality_fee_tax: None,
        limit_order_fee: None,
        crank_fee_charged: None,
        crank_fee_reward: None,
        minimum_deposit_usd: None,
        unpend_limit: None,
        liquifunding_delay_fuzz_seconds: None,
        max_liquidity: None,
        disable_position_nft_exec: None,
        liquidity_cooldown_seconds: None,
        spot_price: None,
    }
}

#[test]
fn config_update_replaces_given_fields() {
    let mut c = config();
    let mut spot = SpotPriceConfig::Manual { admin: None };
    let update = ConfigUpdate { crank_execs: Some(9), protocol_tax: Some(num("0.2")), ..empty_update() };
    update_config(&mut c, &mut spot, update).unwrap();
    assert_eq!(c.crank_execs, 9);
    assert_eq!(c.protocol_tax, num("0.2"));
    assert_eq!(c.max_leverage, num("30"));
    let mut same = config();
    update_config(&mut same, &mut spot, empty_update()).unwrap();
    assert_eq!(same, config());
}

#[test]
fn config_update_refuses_inverted_borrow_rates() {
    let mut c = config();
    let mut spot = SpotPriceConfig::Manual { admin: None };
    let update = ConfigUpdate { borrow_fee_rate_max_annualized: Some(num("0.001")), ..empty_update() };
    assert_eq!(update_config(&mut c, &mut spot, update).unwrap_err(), ConfigError::InvalidConfig);
}

#[test]
fn closed_position_volume_matches_open_volume() {
    // A 5x long (to base) in a market whose collateral is the base: its
    // leverage to notional is -4, so 10 of collateral backs -40 notional at
    // a notional price of 1. Its volume is 5 times its collateral.
    let mut p = price("1", "2");
    p.market_type = MarketType::CollateralIsBase;
    let closed = ClosedPosition {
        notional_size: num("-40"),
        active_collateral: num("10"),
        direction_to_base: DirectionToBase::Long,
    };
    assert_eq!(trade_volume_usd_from_closed(&closed, &p).unwrap(), num("100"));
    // In a market whose collateral is the quote it is the notional's value.
    let q = price("1", "2");
    let closed = ClosedPosition { notional_size: num("40"), active_collateral: num("10"), direction_to_base: DirectionToBase::Long };
    assert_eq!(trade_volume_usd_from_closed(&closed, &q).unwrap(), num("80"));
}
