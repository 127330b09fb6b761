use levana_perps::gather::{OracleAnswers, SpotPriceConfig};
use levana_perps::oracle::PriceStorage;
use levana_perps::price::MarketId;
use levana_perps::spot::SpotPrices;
use levana_perps::book::{position_save, positions_init};
use levana_perps::crank::{
    crank_batch_step, crank_progress_start, crank_work, get_close_all_positions_work, CrankStep, CrankWorkInfo,
    LiquidationReason,
};
use levana_perps::deferred::{DeferredExecItem, DeferredExecTarget, DeferredQueue};
use levana_perps::error::PerpError;
use levana_perps::funding::LiquidityStats;
use levana_perps::number::Number;
use levana_perps::orders::{
    cancel_limit_order, limit_order_assert_owner, limit_order_execute_order, limit_order_load,
    limit_order_newly_triggered_order, limit_order_outcome, limit_order_triggered_order,
    limit_orders_init, LimitOrderBook, PlaceLimitOrderExec,
};
use levana_perps::position::{FeeAccount, LiquidationMargin, Position};
use levana_perps::price::{DirectionToBase, DirectionToNotional, MarketType, PricePoint};
use levana_perps::reset::{ensure_not_resetting_lps, save_liquidity_stats, MarketMsgKind};
use levana_perps::take_profit::TakeProfitTrader;

/// Parses a decimal such as "-9" or "0.05" into a number.
fn num(s: &str) -> Number {
    let (negative, digits) = match s.strip_prefix('-') {
        Some(rest) => (true, rest),
        None => (false, s),
    };
    let (whole, frac) = match digits.split_once('.') {
        Some((w, f)) => (w, f),
        None => (digits, ""),
    };
    let mut atoms: i128 = whole.parse::<i128>().unwrap() * 1_000_000_000_000_000_000;
    let mut scale: i128 = 100_000_000_000_000_000;
    for c in frac.chars() {
        atoms += (c.to_digit(10).unwrap() as i128) * scale;
        scale /= 10;
    }
    if negative {
        atoms = -atoms;
    }
    Number::from_atoms(atoms).unwrap()
}

fn price_one() -> PricePoint {
    PricePoint {
        timestamp: 1,
        price_notional: num("1"),
        price_usd: num("1"),
        price_base: num("1"),
        is_notional_usd: false,
        market_type: MarketType::CollateralIsQuote,
    }
}


fn place(book: &mut LimitOrderBook, owner: &str, trigger: &str, direction: DirectionToNotional) -> u64 {
    let exec = PlaceLimitOrderExec::new(
        book,
        num("0.1"),
        owner.to_string(),
        num(trigger),
        num("10"),
        num("5"),
        direction,
        None,
        TakeProfitTrader::Finite(num("2")),
        num("0.2"),
        num("0.2"),
        &price_one(),
        MarketType::CollateralIsQuote,
    )
    .unwrap();
    exec.apply(book)
}

#[test]
fn placing_an_order_charges_the_crank_fee() {
    let book = limit_orders_init();
    let exec = PlaceLimitOrderExec::new(
        &book,
        num("0.1"),
        "alice".to_string(),
        num("0.9"),
        num("10"),
        num("5"),
        DirectionToNotional::Long,
        None,
        TakeProfitTrader::Finite(num("2")),
        num("0.2"),
        num("0.2"),
        &price_one(),
        MarketType::CollateralIsQuote,
    )
    .unwrap();
    assert_eq!(exec.order.order_id, 1);
    assert_eq!(exec.order.collateral, num("9.9"));
    assert_eq!(exec.order.crank_fee_collateral, num("0.3"));
    assert_eq!(exec.order.crank_fee_usd, num("0.3"));
    assert_eq!(exec.order.trigger_notional, num("0.9"));
    assert_eq!(exec.crank_fee, FeeAccount { collateral: num("0.1"), usd: num("0.1") });
}

#[test]
fn placing_an_order_needs_more_than_the_crank_fee() {
    let book = limit_orders_init();
    let r = PlaceLimitOrderExec::new(
        &book,
        num("0.1"),
        "alice".to_string(),
        num("0.9"),
        num("0.1"),
        num("5"),
        DirectionToNotional::Long,
        None,
        TakeProfitTrader::PosInfinity,
        num("0"),
        num("0"),
        &price_one(),
        MarketType::CollateralIsQuote,
    );
    assert_eq!(r.unwrap_err(), PerpError::InsufficientFundsForCrankFee);
}

#[test]
fn orders_are_stored_loaded_and_owned() {
    let mut book = limit_orders_init();
    let a = place(&mut book, "alice", "0.9", DirectionToNotional::Long);
    let b = place(&mut book, "bob", "1.1", DirectionToNotional::Short);
    assert_eq!((a, b), (1, 2));
    assert_eq!(book.last_order_id, 2);
    assert_eq!(limit_order_load(&book, 2).unwrap().owner, "bob".to_string());
    assert_eq!(limit_order_load(&book, 3).unwrap_err(), PerpError::MissingLimitOrder { id: 3 });
    assert_eq!(limit_order_assert_owner(&book, &"alice".to_string(), 1), Ok(()));
    assert_eq!(limit_order_assert_owner(&book, &"bob".to_string(), 1), Err(PerpError::NotOwner));
}

#[test]
fn triggered_long_orders_come_first_furthest_first() {
    let mut book = limit_orders_init();
    place(&mut book, "a", "0.9", DirectionToNotional::Long);
    place(&mut book, "b", "0.95", DirectionToNotional::Long);
    place(&mut book, "c", "0.8", DirectionToNotional::Long);
    place(&mut book, "d", "0.7", DirectionToNotional::Short);
    // At 0.85 the longs at 0.9 and 0.95 are triggered; 0.95 is furthest.
    assert_eq!(limit_order_triggered_order(&book, num("0.85")), Some(2));
    // At 0.96 no long is triggered; the short at 0.7 is.
    assert_eq!(limit_order_triggered_order(&book, num("0.96")), Some(4));
    // At 0.5 both longs and no short... all longs are triggered, 0.95 first.
    assert_eq!(limit_order_triggered_order(&book, num("0.5")), Some(2));
}

#[test]
fn no_order_triggered_between_triggers() {
    let mut book = limit_orders_init();
    place(&mut book, "a", "0.9", DirectionToNotional::Long);
    place(&mut book, "b", "1.1", DirectionToNotional::Short);
    assert_eq!(limit_order_triggered_order(&book, num("1")), None);
}

#[test]
fn equal_triggers_rank_by_identifier() {
    let mut book = limit_orders_init();
    place(&mut book, "a", "1.1", DirectionToNotional::Short);
    place(&mut book, "b", "1.1", DirectionToNotional::Short);
    place(&mut book, "c", "0.9", DirectionToNotional::Long);
    place(&mut book, "d", "0.9", DirectionToNotional::Long);
    assert_eq!(limit_order_triggered_order(&book, num("1.2")), Some(1));
    assert_eq!(limit_order_triggered_order(&book, num("0.8")), Some(4));
}

#[test]
fn price_moves_newly_trigger_orders() {
    let mut book = limit_orders_init();
    place(&mut book, "a", "0.9", DirectionToNotional::Long);
    place(&mut book, "b", "1.1", DirectionToNotional::Short);
    assert!(limit_order_newly_triggered_order(&book, num("1"), num("0.9")));
    assert!(!limit_order_newly_triggered_order(&book, num("1"), num("0.95")));
    assert!(limit_order_newly_triggered_order(&book, num("1"), num("1.1")));
    assert!(!limit_order_newly_triggered_order(&book, num("0.8"), num("0.7")));
}

#[test]
fn executing_an_order_removes_it_and_gives_its_position() {
    let mut book = limit_orders_init();
    place(&mut book, "a", "0.9", DirectionToNotional::Long);
    place(&mut book, "b", "1.1", DirectionToNotional::Short);
    let (order, params) = limit_order_execute_order(&mut book, 2, MarketType::CollateralIsBase).unwrap();
    assert_eq!(order.order_id, 2);
    assert_eq!(params.collateral, num("9.9"));
    assert_eq!(params.direction, DirectionToBase::Long);
    assert_eq!(params.crank_fee, FeeAccount { collateral: num("0.3"), usd: num("0.3") });
    assert_eq!(params.slippage_assert, None);
    assert_eq!(book.orders.len(), 1);
    assert_eq!(limit_order_execute_order(&mut book, 2, MarketType::CollateralIsBase).unwrap_err(), PerpError::MissingLimitOrder { id: 2 });
    let failed = limit_order_outcome(order, Err(PerpError::Arithmetic));
    assert_eq!(failed.refund, Some(num("9.9")));
}

#[test]
fn cancelling_an_order_refunds_its_owner() {
    let mut book = limit_orders_init();
    place(&mut book, "alice", "0.9", DirectionToNotional::Long);
    assert_eq!(cancel_limit_order(&mut book, 1), Ok(("alice".to_string(), num("9.9"))));
    assert_eq!(cancel_limit_order(&mut book, 1), Err(PerpError::MissingLimitOrder { id: 1 }));
}

fn account(c: &str) -> FeeAccount {
    FeeAccount { collateral: num(c), usd: num(c) }
}

fn position(id: u64) -> Position {
    Position {
        id,
        notional_size: num("10"),
        active_collateral: num("10"),
        counter_collateral: num("5"),
        liquidation_margin: LiquidationMargin { borrow: num("1"), funding: num("1"), delta_neutrality: num("1"), crank: num("1") },
        borrow_fee: account("0"),
        funding_fee: account("0"),
        crank_fee: account("0"),
    }
}

#[test]
fn crank_work_follows_priorities() {
    let mut positions = positions_init();
    positions.last_position_id = 9;
    position_save(&mut positions, position(7)).unwrap();
    position_save(&mut positions, position(3)).unwrap();
    let mut orders = limit_orders_init();
    place(&mut orders, "a", "1.1", DirectionToNotional::Long);
    let mut queue = DeferredQueue::new();
    let item = DeferredExecItem::OpenPosition { amount: num("10"), crank_fee: num("0"), crank_fee_usd: num("0") };
    queue.defer_execution("t".to_string(), item, 0, num("0.1"), num("0"), Some(price_one()), None).unwrap();
    let p = price_one();
    let liq = Some((5, LiquidationReason::StopLoss));
    assert_eq!(crank_work(true, Some(4), true, &positions, liq, &queue, &orders, &p), CrankWorkInfo::ResetLpBalances);
    assert_eq!(crank_work(false, Some(4), true, &positions, liq, &queue, &orders, &p), CrankWorkInfo::Liquifunding { position: 4 });
    assert_eq!(crank_work(false, None, true, &positions, liq, &queue, &orders, &p), CrankWorkInfo::CloseAllPositions { position: 3 });
    assert_eq!(
        crank_work(false, None, false, &positions, liq, &queue, &orders, &p),
        CrankWorkInfo::Liquidation { position: 5, liquidation_reason: LiquidationReason::StopLoss }
    );
    assert_eq!(
        crank_work(false, None, false, &positions, None, &queue, &orders, &p),
        CrankWorkInfo::DeferredExec { deferred_exec_id: 1, target: DeferredExecTarget::DoesNotExist }
    );
    let empty_queue = DeferredQueue::new();
    assert_eq!(crank_work(false, None, false, &positions, None, &empty_queue, &orders, &p), CrankWorkInfo::LimitOrder { order_id: 1 });
    let no_orders = limit_orders_init();
    assert_eq!(crank_work(false, None, false, &positions, None, &empty_queue, &no_orders, &p), CrankWorkInfo::Completed);
    assert_eq!(get_close_all_positions_work(false, &positions), None);
}

#[test]
fn crank_batch_spends_its_budget() {
    let mut progress = crank_progress_start(2);
    assert_eq!(progress.weight_budget_left, 10);
    let p = price_one();
    assert_eq!(crank_batch_step(&mut progress, CrankWorkInfo::LimitOrder { order_id: 1 }, p), CrankStep::Execute);
    assert_eq!(crank_batch_step(&mut progress, CrankWorkInfo::Completed, p), CrankStep::Execute);
    assert_eq!(progress.weight_budget_left, 4);
    assert_eq!(progress.paying_work_done, 1);
    assert_eq!(crank_batch_step(&mut progress, CrankWorkInfo::Liquifunding { position: 1 }, p), CrankStep::OutOfBudget);
    assert_eq!(progress.weight_budget_left, 4);
    assert_eq!(progress.actual.len(), 2);
}

#[test]
fn empty_pool_with_tokens_starts_a_reset() {
    let stats = LiquidityStats { locked: num("0"), unlocked: num("0"), total_lp: num("5"), total_xlp: num("0") };
    let saved = save_liquidity_stats(stats).unwrap();
    assert!(saved.reset_started);
    assert_eq!(saved.stats.total_lp, num("0"));
    let kept = LiquidityStats { locked: num("1"), unlocked: num("0"), total_lp: num("5"), total_xlp: num("0") };
    let saved = save_liquidity_stats(kept).unwrap();
    assert!(!saved.reset_started);
    assert_eq!(saved.stats, kept);
}

#[test]
fn reset_blocks_liquidity_requests() {
    assert_eq!(ensure_not_resetting_lps(MarketMsgKind::DepositLiquidity, true), Err(PerpError::ResettingLpBalances));
    assert_eq!(ensure_not_resetting_lps(MarketMsgKind::Crank, true), Ok(()));
    assert_eq!(ensure_not_resetting_lps(MarketMsgKind::DepositLiquidity, false), Ok(()));
}


fn storage(base: &str, usd: &str) -> PriceStorage {
    PriceStorage {
        price: num(base),
        price_usd: num(usd),
        price_base: num(base),
        publish_time: None,
        publish_time_usd: None,
        block_time: None,
    }
}

fn market_id(base: &str, quote: &str) -> MarketId {
    MarketId { base: base.to_string(), quote: quote.to_string(), market_type: MarketType::CollateralIsQuote }
}

#[test]
fn spot_prices_only_move_forward() {
    let mut prices = SpotPrices::new();
    let id = market_id("ATOM", "USDC");
    assert_eq!(prices.append_spot_price(10, storage("9", "1"), &id), Ok(true));
    assert_eq!(prices.append_spot_price(10, storage("9.5", "1"), &id), Ok(false));
    assert_eq!(prices.append_spot_price(5, storage("9.5", "1"), &id), Ok(false));
    assert_eq!(prices.append_spot_price(20, storage("10", "1"), &id), Ok(true));
    assert_eq!(prices.prices.len(), 2);
    assert_eq!(prices.spot_price_inner_opt(15).map(|p| p.0), Some(10));
    assert_eq!(prices.spot_price_inner_opt(20).map(|p| p.0), Some(20));
    assert_eq!(prices.spot_price_inner_opt(9), None);
    assert_eq!(prices.spot_price_after(None).map(|p| p.0), Some(10));
    assert_eq!(prices.spot_price_after(Some(10)).map(|p| p.0), Some(20));
    assert_eq!(prices.spot_price_after(Some(20)), None);
}

#[test]
fn spot_price_usd_must_match_the_pair() {
    let mut prices = SpotPrices::new();
    // The quote is USD and the collateral, so collateral is worth one USD.
    let id = market_id("ATOM", "USD");
    assert_eq!(prices.append_spot_price(10, storage("9", "2"), &id), Err(PerpError::ConflictingPriceUsd));
    assert_eq!(prices.append_spot_price(10, storage("9", "1"), &id), Ok(true));
}

#[test]
fn manual_spot_price_needs_a_price() {
    let mut prices = SpotPrices::new();
    let id = market_id("ATOM", "USDC");
    let config = SpotPriceConfig::Manual { admin: None };
    let answers = OracleAnswers { pyth: vec![], stride: vec![], simple: vec![] };
    assert_eq!(prices.spot_price_append(&config, None, 7, &answers, &id), Err(PerpError::MissingSpotPrice));
    assert_eq!(prices.spot_price_append(&config, Some(storage("9", "1")), 7, &answers, &id), Ok(true));
    assert_eq!(prices.prices[0].0, 7);
}
