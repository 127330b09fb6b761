use levana_perps::crank::LiquidationReason;
use levana_perps::number::Number;
use levana_perps::price::{DirectionToNotional, MarketType};
use levana_perps::triggers::{PriceTriggers, TriggerPrices};

fn n(x: i128) -> Number {
    Number::from_atoms(x * 1_000_000_000_000_000_000).unwrap()
}

fn prices(liq: Option<i128>, tp: Option<i128>, sl: Option<i128>, tpo: Option<i128>) -> TriggerPrices {
    TriggerPrices {
        liquidation_price: liq.map(n),
        take_profit_price: tp.map(n),
        stop_loss_override: sl.map(n),
        take_profit_override: tpo.map(n),
    }
}

fn book() -> PriceTriggers {
    let mut t = PriceTriggers::new();
    // A long liquidated at 90 with maximum gains at 120.
    t.store_liquidation_prices(1, DirectionToNotional::Long, prices(Some(90), Some(120), None, None));
    // A short liquidated at 110 with maximum gains at 80.
    t.store_liquidation_prices(2, DirectionToNotional::Short, prices(Some(110), Some(80), None, None));
    t
}

#[test]
fn nothing_triggers_between_the_prices() {
    assert_eq!(book().liquidatable_position(&n(100)), None);
}

#[test]
fn falling_price_liquidates_the_long_first() {
    let t = book();
    assert_eq!(t.liquidatable_position(&n(90)), Some((1, LiquidationReason::Liquidated)));
    // Both the long's liquidation (90) and the short's maximum gains (80)
    // are reached at 75; the higher trigger goes first.
    assert_eq!(t.liquidatable_position(&n(75)), Some((1, LiquidationReason::Liquidated)));
}

#[test]
fn rising_price_liquidates_the_short() {
    let t = book();
    assert_eq!(t.liquidatable_position(&n(115)), Some((2, LiquidationReason::Liquidated)));
    assert_eq!(t.liquidatable_position(&n(130)), Some((2, LiquidationReason::Liquidated)));
}

#[test]
fn removed_triggers_no_longer_fire() {
    let mut t = book();
    t.remove_liquidation_prices(1, DirectionToNotional::Long, prices(Some(90), Some(120), None, None));
    assert_eq!(t.liquidatable_position(&n(85)), None);
    assert_eq!(t.liquidatable_position(&n(75)), Some((2, LiquidationReason::MaxGains)));
}

#[test]
fn stop_loss_at_the_liquidation_price_wins() {
    let mut t = PriceTriggers::new();
    t.store_liquidation_prices(3, DirectionToNotional::Long, prices(Some(90), None, Some(90), Some(105)));
    assert_eq!(t.liquidatable_position(&n(89)), Some((3, LiquidationReason::StopLoss)));
    assert_eq!(t.liquidatable_position(&n(106)), Some((3, LiquidationReason::TakeProfit)));
}

#[test]
fn new_price_reaching_a_trigger_detected() {
    let t = book();
    assert!(!t.newly_liquidatable_position(&n(100), &n(95)));
    assert!(t.newly_liquidatable_position(&n(100), &n(90)));
    assert!(t.newly_liquidatable_position(&n(100), &n(110)));
    // A trigger already passed by the oracle price is no news.
    assert!(!t.newly_liquidatable_position(&n(85), &n(86)));
    // In a market whose collateral is the base, a base price of 0.0125 is a
    // notional price of 80.
    let base = Number::from_atoms(12_500_000_000_000_000).unwrap();
    assert_eq!(t.price_would_trigger(&n(100), &base, MarketType::CollateralIsBase), Some(true));
    assert_eq!(t.price_would_trigger(&n(100), &n(100), MarketType::CollateralIsQuote), Some(false));
}
