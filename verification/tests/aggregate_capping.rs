use levana_perps::capping::{aggregate_capping, AggregateCapping};
use levana_perps::number::Number;

/// Parses a decimal such as "-9" or "0.05" into a number.
fn num(s: &str) -> Number {
    let (negative, digits) = match s.strip_prefix('-') {
        Some(rest) => (true, rest),
        None => (false, s),
    };
    let (whole, frac) = match digits.split_once('.') {
        Some((w, f)) => (w, f),
        None => (digits, ""),
    };
    let mut atoms: i128 = whole.parse::<i128>().unwrap() * 1_000_000_000_000_000_000;
    let mut scale: i128 = 100_000_000_000_000_000;
    for c in frac.chars() {
        atoms += (c.to_digit(10).unwrap() as i128) * scale;
        scale /= 10;
    }
    if negative {
        atoms = -atoms;
    }
    Number::from_atoms(atoms).unwrap()
}

fn helper(total_paid: &str, total_margin: &str, amount: &str, pos_margin: &str) -> AggregateCapping {
    aggregate_capping(num(total_paid), num(total_margin), num(amount), num(pos_margin)).unwrap()
}

fn no_capping() -> AggregateCapping {
    AggregateCapping::NoCapping
}

fn capped(capped_amount: &str) -> AggregateCapping {
    AggregateCapping::Capped { capped_amount: num(capped_amount) }
}

#[test]
fn no_capping_trader_pays() {
    assert_eq!(helper("5", "10", "2", "3"), no_capping());
}

#[test]
fn no_capping_trader_receives() {
    assert_eq!(helper("5", "10", "-2", "3"), no_capping());
}

#[test]
fn capped_trader_receives() {
    assert_eq!(helper("-9", "13", "-2", "3"), capped("-1"));
}

#[test]
fn capped_trader_pays() {
    assert_eq!(helper("-9", "10", "1", "3"), capped("2"));
}

#[test]
fn capped_trader_pays_insufficient_pos_margin() {
    assert_eq!(helper("-9", "8", "1", "2"), capped("2"));
}

#[test]
fn uncapped_trader_positive_payments() {
    assert_eq!(helper("5", "2", "-5", "2"), no_capping());
}

#[test]
fn double_cap() {
    assert_eq!(helper("-5", "4", "0", "0"), capped("0"));
}

#[test]
fn capping_rejects_total_margin_below_position_margin() {
    assert_eq!(
        aggregate_capping(num("0"), num("1"), num("1"), num("2")),
        Err(levana_perps::error::PerpError::TotalMarginBelowPositionMargin)
    );
}
