use levana_perps::funding::{
    calc_capped_borrow_fee_payment, calc_capped_funding_payment, calc_multiplier, calculate_borrow_fee_payment,
    calculate_funding_payment, FeeType, FundingTotals, LpAndXlp,
};
use levana_perps::number::Number;

/// Parses a decimal such as "-9" or "0.05" into a number.
fn num(s: &str) -> Number {
    let (negative, digits) = match s.strip_prefix('-') {
        Some(rest) => (true, rest),
        None => (false, s),
    };
    let (whole, frac) = match digits.split_once('.') {
        Some((w, f)) => (w, f),
        None => (digits, ""),
    };
    let mut atoms: i128 = whole.parse::<i128>().unwrap() * 1_000_000_000_000_000_000;
    let mut scale: i128 = 100_000_000_000_000_000;
    for c in frac.chars() {
        atoms += (c.to_digit(10).unwrap() as i128) * scale;
        scale /= 10;
    }
    if negative {
        atoms = -atoms;
    }
    Number::from_atoms(atoms).unwrap()
}

fn go(min_multiplier: &str, max_multiplier: &str, total_lp: &str, total_xlp: &str) -> Number {
    calc_multiplier(num(min_multiplier), num(max_multiplier), num(total_lp), num(total_xlp)).unwrap()
}

#[test]
fn all_lp() {
    assert_eq!(go("2", "5", "500", "0"), num("5"));
}

#[test]
fn all_xlp() {
    assert_eq!(go("2", "5", "0", "500"), num("2"));
}

#[test]
fn even_split() {
    assert_eq!(go("2", "5", "500", "500"), num("3.5"));
}

#[test]
fn multiplier_one_quarter_lp() {
    // (2 * 300 + 5 * 100) / 400 = 2.75
    assert_eq!(go("2", "5", "100", "300"), num("2.75"));
}

#[test]
fn funding_payment_over_a_year() {
    // A rate-price sum of one year at 10% on a notional of 50 pays 5.
    let year_ns: i128 = 31_536_000_000_000_000;
    let sum = Number::from_atoms(year_ns * 100_000_000_000_000_000).unwrap();
    let paid = calculate_funding_payment(Some(sum), num("-50")).unwrap();
    assert_eq!(paid, num("5"));
    assert_eq!(calculate_funding_payment(None, num("50")).unwrap(), num("0"));
}

#[test]
fn borrow_fee_payment_over_a_year() {
    let year_ns: i128 = 31_536_000_000_000_000;
    let lp = Number::from_atoms(year_ns * 20_000_000_000_000_000).unwrap();
    let xlp = Number::from_atoms(year_ns * 30_000_000_000_000_000).unwrap();
    let p = calculate_borrow_fee_payment(lp, xlp, num("100")).unwrap();
    assert_eq!(p.lp, num("2"));
    assert_eq!(p.xlp, num("3"));
    // A negative rate sum is refused.
    assert!(calculate_borrow_fee_payment(num("-1"), xlp, num("100")).is_err());
}

#[test]
fn borrow_fee_capped_at_margin() {
    let uncapped = LpAndXlp { lp: num("3"), xlp: num("1") };
    let (paid, event) = calc_capped_borrow_fee_payment(7, uncapped, num("2")).unwrap();
    assert_eq!(paid.lp, num("1.5"));
    assert_eq!(paid.xlp, num("0.5"));
    let event = event.unwrap();
    assert_eq!(event.fee_type, FeeType::Borrow);
    assert_eq!(event.requested, num("4"));
    assert_eq!(event.pos, 7);
    assert_eq!(event.desc, None);
    let (paid, event) = calc_capped_borrow_fee_payment(7, uncapped, num("10")).unwrap();
    assert_eq!(paid, uncapped);
    assert!(event.is_none());
}

#[test]
fn funding_fee_capped_at_margin() {
    let (paid, event) = calc_capped_funding_payment(7, num("7"), num("5"));
    assert_eq!(paid, num("5"));
    let event = event.unwrap();
    assert_eq!(event.fee_type, FeeType::Funding);
    assert_eq!(event.pos, 7);
    assert_eq!(event.available, num("5"));
    assert_eq!(event.requested, num("7"));
    let (paid, event) = calc_capped_funding_payment(7, num("-7"), num("5"));
    assert_eq!(paid, num("-7"));
    assert!(event.is_none());
}

#[test]
fn funding_totals_track_and_apply() {
    let mut totals = FundingTotals::initialize_funding_totals();
    totals.increase_total_funding_margin(num("10")).unwrap();
    let payment = totals.track_funding_fee_payment_with_capping(7, num("3"), num("4")).unwrap();
    assert_eq!(payment.amount, num("3"));
    assert!(payment.insufficient_margin_event.is_none());
    totals.apply_funding_fee_payment(&payment);
    assert_eq!(totals.total_net_funding_paid, num("3"));
    // Paying out more than the other positions' margin is capped.
    let payment = totals.track_funding_fee_payment_with_capping(7, num("-20"), num("4")).unwrap();
    assert_eq!(payment.amount, num("-9"));
    let event = payment.insufficient_margin_event.unwrap();
    assert_eq!(event.fee_type, FeeType::FundingTotal);
    assert_eq!(event.pos, 7);
    assert_eq!(event.available, num("9"));
    assert_eq!(event.requested, num("20"));
    let shortfall = event.desc.unwrap();
    assert_eq!(shortfall.total_paid, num("3"));
    assert_eq!(shortfall.total_margin, num("10"));
    assert_eq!(shortfall.requested, num("-20"));
    assert_eq!(shortfall.funding_margin, num("4"));
    totals.decrease_total_funding_margin(num("4")).unwrap();
    assert_eq!(totals.total_funding_margin, num("6"));
    assert!(totals.track_funding_fee_payment_with_capping(7, num("1"), num("7")).is_err());
}
