use levana_perps::config::MaxLiquidity;
use levana_perps::cw20::{liquidity_token_balance, liquidity_token_send, number_to_token_units, LiquidityTokenKind};
use levana_perps::error::PerpError;
use levana_perps::funding::{LiquidityStats, LpAndXlp};
use levana_perps::lp::{liquidity_unstake_xlp, LiquidityStatsByAddr, YieldLedger};
use levana_perps::number::Number;
use levana_perps::pool::{
    collateral_to_lp, ensure_max_liquidity, liquidity_deposit, liquidity_deposit_inner, liquidity_withdraw,
    lp_info, lp_to_collateral, reinvest_yield, LiquidityCooldown,
};
use levana_perps::price::{MarketType, PricePoint};

/// Parses a decimal such as "-9" or "0.05" into a number.
fn num(s: &str) -> Number {
    let (negative, digits) = match s.strip_prefix('-') {
        Some(rest) => (true, rest),
        None => (false, s),
    };
    let (whole, frac) = match digits.split_once('.') {
        Some((w, f)) => (w, f),
        None => (digits, ""),
    };
    let mut atoms: i128 = whole.parse::<i128>().unwrap() * 1_000_000_000_000_000_000;
    let mut scale: i128 = 100_000_000_000_000_000;
    for c in frac.chars() {
        atoms += (c.to_digit(10).unwrap() as i128) * scale;
        scale /= 10;
    }
    if negative {
        atoms = -atoms;
    }
    Number::from_atoms(atoms).unwrap()
}

const SECOND: u64 = 1_000_000_000;

fn price(usd: &str) -> PricePoint {
    PricePoint {
        timestamp: 0,
        price_notional: num("1"),
        price_usd: num(usd),
        price_base: num("1"),
        is_notional_usd: false,
        market_type: MarketType::CollateralIsQuote,
    }
}

fn pool(locked: &str, unlocked: &str, lp: &str, xlp: &str) -> LiquidityStats {
    LiquidityStats { locked: num(locked), unlocked: num(unlocked), total_lp: num(lp), total_xlp: num(xlp) }
}

fn empty_pool() -> LiquidityStats {
    pool("0", "0", "0", "0")
}

#[test]
fn first_deposit_mints_one_token_per_unit() {
    assert_eq!(collateral_to_lp(&empty_pool(), &num("100")).unwrap(), num("100"));
}

#[test]
fn later_deposits_mint_pro_rata() {
    // 200 collateral behind 100 tokens: a token is worth 2.
    let p = pool("50", "150", "60", "40");
    assert_eq!(collateral_to_lp(&p, &num("50")).unwrap(), num("25"));
    assert_eq!(lp_to_collateral(&p, &num("25")).unwrap(), num("50"));
    assert_eq!(lp_to_collateral(&p, &num("100")).unwrap(), num("200"));
}

#[test]
fn tokens_without_collateral_refuse_deposits() {
    assert_eq!(collateral_to_lp(&pool("0", "0", "10", "0"), &num("1")).unwrap_err(), PerpError::PoolWithoutCollateral);
}

#[test]
fn max_liquidity_refuses_deposit_above_cap() {
    let cap = MaxLiquidity::Usd { amount: num("300") };
    // 100 collateral at 2 USD is 200 USD; 60 more is 120 USD.
    let p = pool("0", "100", "100", "0");
    assert_eq!(
        ensure_max_liquidity(cap, &price("2"), &num("60"), &p).unwrap_err(),
        PerpError::MaxLiquidity { price_collateral_in_usd: num("2"), current: num("200"), deposit: num("120"), max: num("300") }
    );
    assert!(ensure_max_liquidity(cap, &price("2"), &num("50"), &p).is_ok());
    assert!(ensure_max_liquidity(MaxLiquidity::Unlimited, &price("2"), &num("1000000"), &p).is_ok());
}

#[test]
fn deposit_then_withdraw_everything_round_trips() {
    let ledger = YieldLedger::yield_init();
    let mut p = empty_pool();
    let mut a = LiquidityStatsByAddr::new(&ledger);
    let shares = liquidity_deposit_inner(&ledger, 0, MaxLiquidity::Unlimited, 0, &price("1"), &mut p, &mut a, num("100"), false)
        .unwrap();
    assert_eq!(shares, num("100"));
    assert_eq!(p, pool("0", "100", "100", "0"));
    assert_eq!(a.lp, num("100"));
    let (burned, returned) = liquidity_withdraw(&ledger, 0, &mut p, &mut a, None, num("0"), &price("1"), num("10")).unwrap();
    assert_eq!(burned, num("100"));
    assert_eq!(returned, num("100"));
    assert_eq!(p, empty_pool());
    assert_eq!(a.lp, num("0"));
}

#[test]
fn deposit_starts_cooldown_that_blocks_withdrawal() {
    let ledger = YieldLedger::yield_init();
    let mut p = empty_pool();
    let mut a = LiquidityStatsByAddr::new(&ledger);
    liquidity_deposit(&ledger, 0, MaxLiquidity::Unlimited, 60, &price("1"), &mut p, &mut a, num("100"), false).unwrap();
    assert_eq!(a.cooldown_ends, Some(60 * SECOND));
    assert_eq!(
        liquidity_withdraw(&ledger, 10 * SECOND, &mut p, &mut a, None, num("0"), &price("1"), num("10")).unwrap_err(),
        PerpError::LiquidityCooldown { ends_at: 60 * SECOND, seconds_remaining: 50 }
    );
    assert!(liquidity_withdraw(&ledger, 60 * SECOND, &mut p, &mut a, Some(num("10")), num("0"), &price("1"), num("10")).is_ok());
    assert_eq!(a.lp, num("90"));
    assert_eq!(p, pool("0", "90", "90", "0"));
}

#[test]
fn deposit_staked_to_xlp_has_no_cooldown() {
    let ledger = YieldLedger::yield_init();
    let mut p = empty_pool();
    let mut a = LiquidityStatsByAddr::new(&ledger);
    let shares = liquidity_deposit(&ledger, 0, MaxLiquidity::Unlimited, 60, &price("1"), &mut p, &mut a, num("40"), true).unwrap();
    assert_eq!(shares, num("40"));
    assert_eq!(a.xlp, num("40"));
    assert_eq!(a.lp, num("0"));
    assert_eq!(a.cooldown_ends, None);
    assert_eq!(p, pool("0", "40", "0", "40"));
}

#[test]
fn withdraw_refusals() {
    let ledger = YieldLedger::yield_init();
    let mut a = LiquidityStatsByAddr::new(&ledger);
    let mut p = pool("0", "100", "100", "0");
    assert_eq!(
        liquidity_withdraw(&ledger, 0, &mut p, &mut a, None, num("0"), &price("1"), num("10")).unwrap_err(),
        PerpError::NoLiquidityDeposited
    );
    a.lp = num("100");
    assert_eq!(
        liquidity_withdraw(&ledger, 0, &mut p, &mut a, Some(num("101")), num("0"), &price("1"), num("10")).unwrap_err(),
        PerpError::WithdrawTooMuch { requested: num("101"), available: num("100") }
    );
    // 300 notional of open interest at carry leverage 10 keeps 30 unlocked.
    p = pool("50", "100", "100", "0");
    assert_eq!(
        liquidity_withdraw(&ledger, 0, &mut p, &mut a, Some(num("50")), num("300"), &price("1"), num("10")).unwrap_err(),
        PerpError::InsufficientLiquidityForWithdrawal { requested_lp: num("50"), requested_collateral: num("75"), unlocked: num("70") }
    );
    assert_eq!(p, pool("50", "100", "100", "0"));
    let (_, returned) = liquidity_withdraw(&ledger, 0, &mut p, &mut a, Some(num("40")), num("300"), &price("1"), num("10")).unwrap();
    assert_eq!(returned, num("60"));
    assert_eq!(p, pool("50", "40", "60", "0"));
}

#[test]
fn reinvesting_yield_deposits_it() {
    let mut ledger = YieldLedger::yield_init();
    let mut a = LiquidityStatsByAddr::new(&ledger);
    a.lp = num("10");
    let mut p = pool("0", "10", "10", "0");
    let entry = ledger.liquidity_process_new_yield(num("10"), num("0"), LpAndXlp { lp: num("4"), xlp: num("0") }).unwrap();
    ledger.apply_new_yield(entry);
    // 4 of yield, 3 of it reinvested at a token price of 1; 1 sent back.
    let (shares, rest) = reinvest_yield(&ledger, 0, MaxLiquidity::Unlimited, &price("1"), &mut p, &mut a, Some(num("3")), false).unwrap();
    assert_eq!(shares, num("3"));
    assert_eq!(rest, num("1"));
    assert_eq!(a.lp, num("13"));
    assert_eq!(a.lp_accrued_yield, num("0"));
    assert_eq!(p, pool("0", "13", "13", "0"));
    assert_eq!(
        reinvest_yield(&ledger, 0, MaxLiquidity::Unlimited, &price("1"), &mut p, &mut a, None, false).unwrap_err(),
        PerpError::NoYieldToClaim
    );
}

#[test]
fn reinvesting_more_than_the_yield_refused() {
    let mut ledger = YieldLedger::yield_init();
    let mut a = LiquidityStatsByAddr::new(&ledger);
    a.lp = num("10");
    let mut p = pool("0", "10", "10", "0");
    let entry = ledger.liquidity_process_new_yield(num("10"), num("0"), LpAndXlp { lp: num("2"), xlp: num("0") }).unwrap();
    ledger.apply_new_yield(entry);
    assert_eq!(
        reinvest_yield(&ledger, 0, MaxLiquidity::Unlimited, &price("1"), &mut p, &mut a, Some(num("3")), true).unwrap_err(),
        PerpError::InsufficientForReinvest { requested: num("3"), available: num("2") }
    );
    let (shares, rest) = reinvest_yield(&ledger, 0, MaxLiquidity::Unlimited, &price("1"), &mut p, &mut a, None, true).unwrap();
    assert_eq!((shares, rest), (num("2"), num("0")));
    assert_eq!(a.xlp, num("2"));
    assert_eq!(p, pool("0", "12", "10", "2"));
}

#[test]
fn lp_info_counts_unstaking_and_yield() {
    let mut ledger = YieldLedger::yield_init();
    let mut a = LiquidityStatsByAddr::new(&ledger);
    a.lp = num("10");
    a.xlp = num("20");
    let mut p = pool("0", "60", "10", "20");
    // Unstake 10 xLP over 100 seconds, starting at 0.
    liquidity_unstake_xlp(&ledger, 0, 100, &mut p, &mut a, Some(num("10"))).unwrap();
    let entry = ledger.liquidity_process_new_yield(num("20"), num("10"), LpAndXlp { lp: num("2"), xlp: num("1") }).unwrap();
    ledger.apply_new_yield(entry);
    a.cooldown_ends = Some(100 * SECOND);
    let info = lp_info(&ledger, 25 * SECOND, &p, &a).unwrap();
    // A quarter of the 10 has unstaked.
    assert_eq!(info.lp_amount, num("12.5"));
    assert_eq!(info.xlp_amount, num("17.5"));
    // A token is worth 2.
    assert_eq!(info.lp_collateral, num("25"));
    assert_eq!(info.xlp_collateral, num("35"));
    // 20 LP (counting the unstaking) at 0.1 and 10 xLP at 0.1.
    assert_eq!(info.available_yield_lp, num("2"));
    assert_eq!(info.available_yield_xlp, num("1"));
    assert_eq!(info.available_yield, num("3"));
    let u = info.unstaking.unwrap();
    assert_eq!((u.start, u.end), (0, 100 * SECOND));
    assert_eq!(u.available, num("2.5"));
    assert_eq!(u.pending, num("7.5"));
    assert_eq!(u.xlp_unstaking_collateral, num("20"));
    assert_eq!(info.liquidity_cooldown, Some(LiquidityCooldown { at: 100 * SECOND, seconds: 75 }));
}

#[test]
fn lp_info_of_drained_pool_shows_no_holdings() {
    let ledger = YieldLedger::yield_init();
    let mut a = LiquidityStatsByAddr::new(&ledger);
    a.lp = num("10");
    a.crank_rewards = num("1");
    let info = lp_info(&ledger, 0, &pool("0", "0", "10", "0"), &a).unwrap();
    assert_eq!(info.lp_amount, num("0"));
    assert_eq!(info.lp_collateral, num("0"));
    assert_eq!(info.available_yield, num("1"));
}

#[test]
fn token_units_truncate_to_six_decimals() {
    assert_eq!(number_to_token_units(&num("1.2345678")), Some(1_234_567));
    assert_eq!(number_to_token_units(&num("0")), Some(0));
}

#[test]
fn token_balances_count_unstaked_lp() {
    let ledger = YieldLedger::yield_init();
    let mut a = LiquidityStatsByAddr::new(&ledger);
    a.lp = num("10");
    a.xlp = num("20");
    let mut p = pool("0", "30", "10", "20");
    liquidity_unstake_xlp(&ledger, 0, 100, &mut p, &mut a, Some(num("10"))).unwrap();
    // A quarter of the 10 unstaking has become LP.
    assert_eq!(liquidity_token_balance(&ledger, 25 * SECOND, &p, &a, LiquidityTokenKind::Lp).unwrap(), 12_500_000);
    // The xLP being unstaked cannot move.
    assert_eq!(liquidity_token_balance(&ledger, 25 * SECOND, &p, &a, LiquidityTokenKind::Xlp).unwrap(), 10_000_000);
}

#[test]
fn sending_tokens_names_the_sender() {
    let ledger = YieldLedger::yield_init();
    let mut owner = LiquidityStatsByAddr::new(&ledger);
    owner.xlp = num("5");
    let mut contract = LiquidityStatsByAddr::new(&ledger);
    let m = liquidity_token_send(&ledger, 0, &"alice".to_string(), &mut owner, &mut contract, 2_000_000, LiquidityTokenKind::Xlp)
        .unwrap();
    assert_eq!(m.sender, "alice");
    assert_eq!(m.amount, 2_000_000);
    assert_eq!(owner.xlp, num("3"));
    assert_eq!(contract.xlp, num("2"));
}
