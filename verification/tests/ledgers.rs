use levana_perps::ibc::{closed_grant_channel, connected_grant_channel, validate_channel, ChannelError, IbcChannelVersion};
use levana_perps::data_series::DataSeries;
use levana_perps::deferred::{CrankFeeCharge, DeferredExecItem, DeferredExecStatus, DeferredExecTarget, DeferredQueue};
use levana_perps::error::PerpError;
use levana_perps::fees::{collect_borrow_fee, split_trading_fee, Fees};
use levana_perps::funding::{LiquidityStats, LpAndXlp};
use levana_perps::lp::{
    calculate_unstaked_lp, liquidity_claim_yield, liquidity_stake_lp, liquidity_stop_unstaking_xlp,
    liquidity_unstake_xlp, LiquidityStatsByAddr, UnstakingXlp, YieldLedger,
};
use levana_perps::number::Number;
use levana_perps::price::{MarketType, PricePoint};
use levana_perps::rewards::{claim_rewards, grant_rewards, native_transfer_units, RewardsError};
use levana_perps::rujira::{chain_price_from_atoms, ChainSymbol, EnshrinedPrice, Network, OraclePrice, QueryNetworkResponse, QueryOraclePriceResponse, QueryResponseError};

/// Parses a decimal such as "-9" or "0.05" into a number.
fn num(s: &str) -> Number {
    let (negative, digits) = match s.strip_prefix('-') {
        Some(rest) => (true, rest),
        None => (false, s),
    };
    let (whole, frac) = match digits.split_once('.') {
        Some((w, f)) => (w, f),
        None => (digits, ""),
    };
    let mut atoms: i128 = whole.parse::<i128>().unwrap() * 1_000_000_000_000_000_000;
    let mut scale: i128 = 100_000_000_000_000_000;
    for c in frac.chars() {
        atoms += (c.to_digit(10).unwrap() as i128) * scale;
        scale /= 10;
    }
    if negative {
        atoms = -atoms;
    }
    Number::from_atoms(atoms).unwrap()
}

const SECOND: u64 = 1_000_000_000;

fn price_half() -> PricePoint {
    PricePoint {
        timestamp: 0,
        price_notional: num("1"),
        price_usd: num("2"),
        price_base: num("1"),
        is_notional_usd: false,
        market_type: MarketType::CollateralIsQuote,
    }
}

#[test]
fn data_series_integrates() {
    let mut s = DataSeries::new();
    s.append(0, num("2")).unwrap();
    s.append(10, num("3")).unwrap();
    assert_eq!(s.append(5, num("1")).unwrap_err(), PerpError::TimeWentBackwards);
    // 2 over [0, 10) and 3 over [10, 20).
    assert_eq!(s.sum(0, 20).unwrap().to_atoms(), Some(50_000_000_000_000_000_000));
    assert_eq!(s.sum(5, 15).unwrap().to_atoms(), Some(25_000_000_000_000_000_000));
    // Additivity: [0, 15) = [0, 5) + [5, 15).
    let whole = s.sum(0, 15).unwrap();
    let parts = s.sum(0, 5).unwrap().checked_add(&s.sum(5, 15).unwrap()).unwrap();
    assert_eq!(whole, parts);
    assert_eq!(s.try_load_last().unwrap().time, 10);
    // One value in force over the whole range: value times length.
    assert_eq!(s.sum(12, 19).unwrap().to_atoms(), Some(21_000_000_000_000_000_000));
    assert_eq!(s.sum(1, 4).unwrap().to_atoms(), Some(6_000_000_000_000_000_000));
}

#[test]
fn fees_split_and_conserve() {
    let c = collect_borrow_fee(LpAndXlp { lp: num("10"), xlp: num("5") }, num("0.2")).unwrap();
    assert_eq!(c.lp_amount, num("8"));
    assert_eq!(c.xlp_amount, num("4"));
    assert_eq!(c.protocol_amount, num("3"));
    let t = split_trading_fee(num("10"), num("0.1"), num("0.3"), num("0.6")).unwrap();
    assert_eq!(t.protocol_amount, num("1"));
    assert_eq!(t.lp_amount, num("3"));
    assert_eq!(t.xlp_amount, num("6"));
    assert_eq!(split_trading_fee(num("10"), num("0.1"), num("0"), num("0")).unwrap_err(), PerpError::NoLiquidity);
    assert_eq!(split_trading_fee(num("10"), num("0.1"), num("-1"), num("1")).unwrap_err(), PerpError::NegativeBorrowRate);
    let mut fees = Fees::fees_init();
    fees.apply_borrow_fee_collection(&c).unwrap();
    fees.apply_trading_fee(&t).unwrap();
    assert_eq!(fees.wallets, num("21"));
    assert_eq!(fees.protocol, num("4"));
    assert_eq!(fees.transfer_fees_to_dao().unwrap(), num("4"));
    assert_eq!(fees.transfer_fees_to_dao().unwrap_err(), PerpError::NoDaoFees);
}

#[test]
fn crank_fees_paid_from_crank_funds() {
    let mut fees = Fees::fees_init();
    fees.provide_crank_funds(num("1")).unwrap();
    // Three cranks at 0.5 would be 1.5, but only 1 is there.
    assert_eq!(fees.allocate_crank_fees(3, num("0.5")).unwrap(), num("1"));
    assert_eq!(fees.crank, num("0"));
    assert_eq!(fees.wallets, num("1"));
}

#[test]
fn rewards_grant_then_claim() {
    let granted = grant_rewards(None, num("100"), num("0.25"), 100, 0).unwrap();
    assert_eq!(granted.transfer_amount, num("25"));
    assert_eq!(granted.transfer_units, 25_000_000);
    let v = granted.info.vesting_rewards.unwrap();
    assert_eq!(v.amount, num("75"));
    // Half the period later, half of the vesting amount has unlocked.
    let claimed = claim_rewards(Some(granted.info), 50 * SECOND).unwrap();
    assert_eq!(claimed.transfer_amount, num("37.5"));
    // At the end, the rest.
    let rest = claim_rewards(Some(claimed.info), 100 * SECOND).unwrap();
    assert_eq!(rest.transfer_amount, num("37.5"));
    assert!(rest.info.vesting_rewards.is_none());
    assert_eq!(claim_rewards(Some(rest.info), 200 * SECOND).unwrap_err(), RewardsError::NoOutstandingRewards);
    assert_eq!(claim_rewards(None, 0).unwrap_err(), RewardsError::NoOutstandingRewards);
}

#[test]
fn rewards_refuse_dust_transfers() {
    assert_eq!(native_transfer_units(num("0.0000001")).unwrap_err(), RewardsError::TransferTooSmall);
    assert_eq!(native_transfer_units(num("1.5")).unwrap(), 1_500_000);
}

#[test]
fn chain_symbols_and_prices() {
    assert_eq!(ChainSymbol::parse("ETH.ETH").symbol(), "ETH");
    assert_eq!(ChainSymbol::parse("BTC").symbol(), "BTC");
    let net = Network::try_from_response(&QueryNetworkResponse { rune_price_in_tor: "150000000".to_string() }).unwrap();
    assert_eq!(net.rune_price_in_tor, num("1.5"));
    let resp = QueryOraclePriceResponse { price: Some(OraclePrice { price: "250000000000".to_string() }) };
    assert_eq!(EnshrinedPrice::try_from_response(&resp).unwrap().price, num("2500"));
    let none = QueryOraclePriceResponse { price: None };
    assert_eq!(EnshrinedPrice::try_from_response(&none).unwrap_err(), QueryResponseError::NoPrice);
    let bad = QueryOraclePriceResponse { price: Some(OraclePrice { price: "abc".to_string() }) };
    assert_eq!(EnshrinedPrice::try_from_response(&bad).unwrap_err(), QueryResponseError::InvalidDecimal);
    assert_eq!(chain_price_from_atoms(250_000_000_000_000_000_000_000_000), num("2.5"));
}

fn open_item(amount: &str) -> DeferredExecItem {
    DeferredExecItem::OpenPosition { amount: num(amount), crank_fee: num("0"), crank_fee_usd: num("0") }
}

#[test]
fn deferred_queue_charges_and_orders() {
    let mut q = DeferredQueue::new();
    let alice = "alice".to_string();
    let d = q.defer_execution(alice.clone(), open_item("10"), 5, num("1"), num("0.1"), Some(price_half()), None).unwrap();
    assert_eq!(d.id, 1);
    assert_eq!(d.crank_fee_usd, num("1"));
    assert_eq!(d.crank_fee, num("0.5"));
    assert_eq!(d.charge, CrankFeeCharge::Collect { amount: num("0.5"), amount_usd: num("1") });
    assert_eq!(
        q.execs[0].item,
        DeferredExecItem::OpenPosition { amount: num("9.5"), crank_fee: num("0.5"), crank_fee_usd: num("1") }
    );
    assert_eq!(q.get_next_deferred_execution(), Some(1));
    assert_eq!(q.next_crankable_deferred_exec_id(5), None);
    assert_eq!(q.next_crankable_deferred_exec_id(6), Some((1, DeferredExecTarget::DoesNotExist)));
    assert_eq!(q.deferred_execution_items(), 1);
    q.process_deferred_exec(1);
    assert_eq!(q.get_next_deferred_execution(), None);
    assert_eq!(q.deferred_execution_items(), 0);
    let r = q.defer_execution(alice.clone(), open_item("0.5"), 6, num("1"), num("0.1"), Some(price_half()), None);
    assert_eq!(r.unwrap_err(), PerpError::InsufficientFundsForCrankFee);
    let r = q.defer_execution(alice, open_item("10"), 6, num("1"), num("0.1"), None, None);
    assert_eq!(r.unwrap_err(), PerpError::MissingSpotPrice);
}

#[test]
fn deferred_queue_surcharges_long_queues() {
    let mut q = DeferredQueue::new();
    for _ in 0..10 {
        q.defer_execution("a".to_string(), open_item("10"), 1, num("1"), num("0.1"), Some(price_half()), None).unwrap();
    }
    // Ten waiting: one surcharge step.
    let d = q.defer_execution("a".to_string(), open_item("10"), 1, num("1"), num("0.1"), Some(price_half()), None).unwrap();
    assert_eq!(d.id, 11);
    assert_eq!(d.crank_fee_usd, num("1.1"));
}

#[test]
fn deferred_queue_guards_positions() {
    let mut q = DeferredQueue::new();
    let alice = "alice".to_string();
    let close = DeferredExecItem::ClosePosition { id: 4 };
    let r = q.defer_execution(alice.clone(), close, 1, num("1"), num("0"), Some(price_half()), Some("bob".to_string()));
    assert_eq!(r.unwrap_err(), PerpError::NotOwner);
    let r = q.defer_execution(alice.clone(), close, 1, num("1"), num("0"), Some(price_half()), None);
    assert_eq!(r.unwrap_err(), PerpError::TargetNotFound);
    let d = q.defer_execution(alice.clone(), close, 1, num("1"), num("0"), Some(price_half()), Some(alice.clone())).unwrap();
    assert_eq!(d.charge, CrankFeeCharge::NoCharge);
    let r = q.defer_execution(alice.clone(), close, 1, num("1"), num("0"), Some(price_half()), Some(alice.clone()));
    assert_eq!(r.unwrap_err(), PerpError::PositionAlreadyClosing);
    let update = DeferredExecItem::UpdatePositionLeverage { id: 4 };
    let r = q.defer_execution(alice.clone(), update, 1, num("1"), num("0"), Some(price_half()), Some(alice.clone()));
    assert_eq!(r.unwrap_err(), PerpError::PositionUpdateAlreadyPending);
    // A failed close gives nothing back and clears the pending marker.
    q.process_deferred_exec(1);
    let reply = q.handle_deferred_exec_reply(1, false, 9).unwrap();
    assert!(reply.refund.is_none());
    assert_eq!(q.execs[0].status, DeferredExecStatus::Failure { executed: 9 });
    assert!(q.pending_for_position.is_empty());
    assert_eq!(q.handle_deferred_exec_reply(1, false, 9).unwrap_err(), PerpError::UnexpectedDeferredStatus);
}

#[test]
fn deferred_failure_refunds_deposit() {
    let mut q = DeferredQueue::new();
    q.defer_execution("a".to_string(), open_item("10"), 1, num("1"), num("0"), Some(price_half()), None).unwrap();
    let reply = q.handle_deferred_exec_reply(1, false, 2).unwrap();
    assert_eq!(reply.refund, Some(("a".to_string(), num("9.5"))));
    let mut q = DeferredQueue::new();
    q.defer_execution("a".to_string(), open_item("10"), 1, num("1"), num("0"), Some(price_half()), None).unwrap();
    assert_eq!(q.handle_deferred_exec_reply(1, true, 2).unwrap_err(), PerpError::UnexpectedDeferredStatus);
    q.mark_deferred_exec_success(1, 2);
    assert!(q.handle_deferred_exec_reply(1, true, 3).unwrap().success);
}

fn provider(ledger: &YieldLedger, lp: &str, xlp: &str) -> LiquidityStatsByAddr {
    let mut a = LiquidityStatsByAddr::new(ledger);
    a.lp = num(lp);
    a.xlp = num(xlp);
    a
}

fn pool(lp: &str, xlp: &str) -> LiquidityStats {
    LiquidityStats { locked: num("0"), unlocked: num("100"), total_lp: num(lp), total_xlp: num(xlp) }
}

#[test]
fn unstaking_is_linear() {
    let u = UnstakingXlp {
        xlp_amount: num("100"),
        collected: num("0"),
        unstake_started: 0,
        unstake_duration: 100 * SECOND,
        last_collected: 0,
    };
    assert_eq!(calculate_unstaked_lp(25 * SECOND, &u).unwrap(), num("25"));
    assert_eq!(calculate_unstaked_lp(150 * SECOND, &u).unwrap(), num("100"));
    let later = UnstakingXlp { collected: num("25"), last_collected: 25 * SECOND, ..u };
    assert_eq!(calculate_unstaked_lp(20 * SECOND, &later).unwrap_err(), PerpError::TimeWentBackwards);
}

#[test]
fn staking_and_unstaking_move_the_pool() {
    let ledger = YieldLedger::yield_init();
    let mut p = pool("10", "0");
    let mut a = provider(&ledger, "10", "0");
    liquidity_stake_lp(&ledger, 0, &mut p, &mut a, Some(num("4"))).unwrap();
    assert_eq!((a.lp, a.xlp), (num("6"), num("4")));
    assert_eq!((p.total_lp, p.total_xlp), (num("6"), num("4")));
    assert_eq!(liquidity_stake_lp(&ledger, 0, &mut p, &mut a, Some(num("7"))).unwrap_err(), PerpError::InsufficientTokens);
    liquidity_unstake_xlp(&ledger, 0, 100, &mut p, &mut a, None).unwrap();
    assert_eq!(a.xlp, num("0"));
    assert_eq!((p.total_lp, p.total_xlp), (num("10"), num("0")));
    // Halfway through, stopping gives back half as xLP.
    liquidity_stop_unstaking_xlp(&ledger, 50 * SECOND, &mut p, &mut a, true).unwrap();
    assert_eq!((a.lp, a.xlp), (num("8"), num("2")));
    assert_eq!((p.total_lp, p.total_xlp), (num("8"), num("2")));
    assert!(a.unstaking.is_none());
    let r = liquidity_stop_unstaking_xlp(&ledger, 50 * SECOND, &mut p, &mut a, true);
    assert_eq!(r.unwrap_err(), PerpError::NotUnstaking);
}

#[test]
fn yield_accrues_per_token() {
    let mut ledger = YieldLedger::yield_init();
    let mut a = provider(&ledger, "10", "5");
    let entry = ledger.liquidity_process_new_yield(num("20"), num("10"), LpAndXlp { lp: num("4"), xlp: num("3") }).unwrap();
    assert_eq!(entry.lp, num("0.2"));
    assert_eq!(entry.xlp, num("0.3"));
    ledger.apply_new_yield(entry);
    // 10 LP at 0.2 and 5 xLP at 0.3.
    let claimed = liquidity_claim_yield(&ledger, 0, &mut a).unwrap();
    assert_eq!(claimed, num("3.5"));
    assert_eq!(liquidity_claim_yield(&ledger, 0, &mut a).unwrap_err(), PerpError::NoYieldToClaim);
}

#[test]
fn ibc_grant_channel_checks() {
    let grant = IbcChannelVersion::LvnGrant;
    let nft = IbcChannelVersion::NftMint;
    assert_eq!(validate_channel(grant, Some(grant), true), Ok(grant));
    assert_eq!(validate_channel(grant, None, true), Ok(grant));
    assert_eq!(
        validate_channel(grant, Some(nft), true),
        Err(ChannelError::VersionMismatch { counterparty: nft, version: grant })
    );
    assert_eq!(validate_channel(grant, None, false), Err(ChannelError::NotUnordered));
    assert_eq!(connected_grant_channel(grant, "channel-7".to_string()), Ok("channel-7".to_string()));
    assert_eq!(connected_grant_channel(nft, "channel-7".to_string()), Err(ChannelError::UnknownChannel(nft)));
    assert_eq!(closed_grant_channel(Some(grant), Some("channel-7".to_string())), Ok(None));
    assert_eq!(closed_grant_channel(None, Some("channel-7".to_string())), Ok(Some("channel-7".to_string())));
    assert_eq!(closed_grant_channel(Some(nft), None), Err(ChannelError::UnknownChannel(nft)));
}
