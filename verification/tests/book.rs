use levana_perps::book::{apply_open, get_position, position_remove, position_save, positions_init};
use levana_perps::config::{Config, MaxLiquidity};
use levana_perps::error::PerpError;
use levana_perps::funding::LiquidityStats;
use levana_perps::number::Number;
use levana_perps::open::{OpenMarket, OpenPositionDraft, OpenPositionExec, OpenPositionParams};
use levana_perps::position::{FeeAccount, LiquidationMargin, Position};
use levana_perps::price::{DirectionToBase, MarketType, PricePoint};
use levana_perps::take_profit::TakeProfitTrader;

/// Parses a decimal such as "-9" or "0.05" into a number.
fn num(s: &str) -> Number {
    let (negative, digits) = match s.strip_prefix('-') {
        Some(rest) => (true, rest),
        None => (false, s),
    };
    let (whole, frac) = match digits.split_once('.') {
        Some((w, f)) => (w, f),
        None => (digits, ""),
    };
    let mut atoms: i128 = whole.parse::<i128>().unwrap() * 1_000_000_000_000_000_000;
    let mut scale: i128 = 100_000_000_000_000_000;
    for c in frac.chars() {
        atoms += (c.to_digit(10).unwrap() as i128) * scale;
        scale /= 10;
    }
    if negative {
        atoms = -atoms;
    }
    Number::from_atoms(atoms).unwrap()
}

fn price_one() -> PricePoint {
    PricePoint {
        timestamp: 1,
        price_notional: num("1"),
        price_usd: num("1"),
        price_base: num("1"),
        is_notional_usd: false,
        market_type: MarketType::CollateralIsQuote,
    }
}

fn config() -> Config {
    Config {
        trading_fee_notional_size: num("0.001"),
        trading_fee_counter_collateral: num("0.001"),
        crank_execs: 7,
        max_leverage: num("30"),
        carry_leverage: num("10"),
        mute_events: false,
        liquifunding_delay_seconds: 86400,
        price_update_too_old_seconds: 1800,
        staleness_seconds: 7200,
        unstake_period_seconds: 3600,
        limit_order_fee: num("0"),
        minimum_deposit_usd: num("5"),
        unpend_limit: 50,
        liquifunding_delay_fuzz_seconds: 3600,
        max_liquidity: MaxLiquidity::Unlimited,
        disable_position_nft_exec: false,
        liquidity_cooldown_seconds: 3600,
        delta_neutrality_fee_cap: num("1"),
        delta_neutrality_fee_sensitivity: num("10000"),
        delta_neutrality_fee_tax: num("0.05"),
        funding_rate_max_annualized: num("0.9"),
        funding_rate_sensitivity: num("1"),
        borrow_fee_sensitivity: num("0.08333"),
        borrow_fee_rate_min_annualized: num("0.01"),
        borrow_fee_rate_max_annualized: num("0.6"),
        target_utilization: num("0.5"),
        min_xlp_rewards_multiplier: num("1"),
        max_xlp_rewards_multiplier: num("2"),
        protocol_tax: num("0.3"),
        crank_fee_reward: num("0.1"),
        crank_fee_charged: num("0.1"),
        referral_reward_ratio: num("0.05"),
    }
}

fn stats(locked: &str, unlocked: &str) -> LiquidityStats {
    LiquidityStats { locked: num(locked), unlocked: num(unlocked), total_lp: num("1000"), total_xlp: num("0") }
}

fn market() -> OpenMarket {
    OpenMarket {
        long_interest: num("0"),
        short_interest: num("0"),
        delta_neutrality_fund: num("0"),
        liquidity: stats("0", "1000"),
        last_position_id: 0,
    }
}

fn params(collateral: &str, leverage: &str) -> OpenPositionParams {
    OpenPositionParams {
        collateral: num(collateral),
        crank_fee: FeeAccount { collateral: num("0.1"), usd: num("0.1") },
        leverage: num(leverage),
        direction: DirectionToBase::Long,
        slippage_assert: None,
        take_profit_trader: TakeProfitTrader::Finite(num("1.5")),
    }
}

fn account(c: &str) -> FeeAccount {
    FeeAccount { collateral: num(c), usd: num(c) }
}

fn margin(total_borrow: &str) -> LiquidationMargin {
    LiquidationMargin { borrow: num(total_borrow), funding: num("1"), delta_neutrality: num("1"), crank: num("1") }
}

fn position(id: u64, active: &str) -> Position {
    Position {
        id,
        notional_size: num("10"),
        active_collateral: num(active),
        counter_collateral: num("5"),
        liquidation_margin: margin("1"),
        borrow_fee: account("0"),
        funding_fee: account("0"),
        crank_fee: account("0"),
    }
}

#[test]
fn empty_book_has_no_positions() {
    let book = positions_init();
    assert_eq!(book.last_position_id, 0);
    assert_eq!(book.long_interest, num("0"));
    assert_eq!(get_position(&book, 1), Err(PerpError::MissingPosition { id: 1 }));
}

#[test]
fn saved_position_is_found_and_replaced() {
    let mut book = positions_init();
    book.last_position_id = 2;
    assert_eq!(position_save(&mut book, position(1, "10")), Ok(()));
    assert_eq!(position_save(&mut book, position(2, "20")), Ok(()));
    assert_eq!(get_position(&book, 1), Ok(position(1, "10")));
    assert_eq!(position_save(&mut book, position(1, "30")), Ok(()));
    assert_eq!(get_position(&book, 1), Ok(position(1, "30")));
    assert_eq!(get_position(&book, 2), Ok(position(2, "20")));
    assert_eq!(book.positions.len(), 2);
}

#[test]
fn save_refused_below_margin() {
    let mut book = positions_init();
    book.last_position_id = 1;
    let r = position_save(&mut book, position(1, "3.5"));
    assert_eq!(r, Err(PerpError::InsufficientMargin { active_collateral: num("3.5"), liquidation_margin: num("4") }));
    assert_eq!(get_position(&book, 1), Err(PerpError::MissingPosition { id: 1 }));
}

#[test]
fn removed_position_is_missing() {
    let mut book = positions_init();
    book.last_position_id = 2;
    position_save(&mut book, position(1, "10")).unwrap();
    position_save(&mut book, position(2, "20")).unwrap();
    assert_eq!(position_remove(&mut book, 1), Ok(position(1, "10")));
    assert_eq!(get_position(&book, 1), Err(PerpError::MissingPosition { id: 1 }));
    assert_eq!(get_position(&book, 2), Ok(position(2, "20")));
    assert_eq!(position_remove(&mut book, 1), Err(PerpError::MissingPosition { id: 1 }));
}

#[test]
fn opened_position_is_stored_with_its_interest() {
    let params = OpenPositionParams {
        collateral: num("100"),
        crank_fee: account("0.1"),
        leverage: num("5"),
        direction: DirectionToBase::Long,
        slippage_assert: None,
        take_profit_trader: TakeProfitTrader::Finite(num("1.5")),
    };
    let draft = OpenPositionDraft::new(&config(), &market(), params, MarketType::CollateralIsQuote, &price_one()).unwrap();
    let exec = OpenPositionExec::new(draft, margin("1"), &market(), &config(), MarketType::CollateralIsQuote).unwrap();
    let mut book = positions_init();
    assert_eq!(apply_open(&mut book, &exec), Ok(()));
    assert_eq!(book.last_position_id, 1);
    assert_eq!(book.long_interest, num("500"));
    assert_eq!(get_position(&book, 1), Ok(exec.draft.pos));
}
