use levana_perps::dnf::{
    calculate_delta_neutrality_fee_amount, charge_delta_neutrality_fee_no_update, check_adjust_net_open_interest,
    AdjustOpenInterestResult, DeltaNeutralityFeeReason,
};
use levana_perps::error::PerpError;
use levana_perps::number::Number;
use levana_perps::price::{DirectionToNotional, MarketType, PricePoint};

/// Parses a decimal such as "-9" or "0.05" into a number.
fn num(s: &str) -> Number {
    let (negative, digits) = match s.strip_prefix('-') {
        Some(rest) => (true, rest),
        None => (false, s),
    };
    let (whole, frac) = match digits.split_once('.') {
        Some((w, f)) => (w, f),
        None => (digits, ""),
    };
    let mut atoms: i128 = whole.parse::<i128>().unwrap() * 1_000_000_000_000_000_000;
    let mut scale: i128 = 100_000_000_000_000_000;
    for c in frac.chars() {
        atoms += (c.to_digit(10).unwrap() as i128) * scale;
        scale /= 10;
    }
    if negative {
        atoms = -atoms;
    }
    Number::from_atoms(atoms).unwrap()
}

fn price_one() -> PricePoint {
    PricePoint {
        timestamp: 0,
        price_notional: num("1"),
        price_usd: num("1"),
        price_base: num("1"),
        is_notional_usd: false,
        market_type: MarketType::CollateralIsQuote,
    }
}

#[test]
fn delta_neutrality_fee_cumulative() {
    let cap = num("0.05");
    let sensitivity = num("1000000");
    let net_notional = num("119000");
    let delta = num("-95000");

    let fee1 = calculate_delta_neutrality_fee_amount(cap, sensitivity, net_notional, delta).unwrap();
    let after = net_notional.checked_add(&delta).unwrap();
    let fee2 = calculate_delta_neutrality_fee_amount(cap, sensitivity, after, after.neg()).unwrap();
    let fee3 = calculate_delta_neutrality_fee_amount(cap, sensitivity, net_notional, net_notional.neg()).unwrap();

    assert_eq!(fee1.checked_add(&fee2).unwrap(), fee3)
}

#[test]
fn dnf_amount_within_cap_is_quadratic() {
    // From 0 to 1000 with sensitivity 1000000: 1000^2 / 2000000 = 0.5.
    let fee = calculate_delta_neutrality_fee_amount(num("0.05"), num("1000000"), num("0"), num("1000")).unwrap();
    assert_eq!(fee, num("0.5"));
    // The way back pays the same amount back.
    let back = calculate_delta_neutrality_fee_amount(num("0.05"), num("1000000"), num("1000"), num("-1000")).unwrap();
    assert_eq!(back, num("-0.5"));
}

#[test]
fn dnf_amount_beyond_cap_is_linear() {
    // The cap is reached at 50000; the next 10000 pay the cap each.
    let fee = calculate_delta_neutrality_fee_amount(num("0.05"), num("1000000"), num("50000"), num("10000")).unwrap();
    assert_eq!(fee, num("500"));
}

#[test]
fn charge_dnf_fee_takes_tax() {
    let r = charge_delta_neutrality_fee_no_update(
        num("0.05"),
        num("1000000"),
        num("0.1"),
        num("0"),
        num("1000"),
        price_one(),
        DeltaNeutralityFeeReason::PositionOpen,
        num("0"),
        num("10"),
    )
    .unwrap();
    assert_eq!(r.fee, num("0.5"));
    assert_eq!(r.protocol_fees, num("0.05"));
    assert_eq!(r.fund_fees, num("0.45"));
    assert_eq!(r.total_funds_after, num("10.45"));
}

#[test]
fn charge_dnf_fee_payout_limited_by_fund() {
    let r = charge_delta_neutrality_fee_no_update(
        num("0.05"),
        num("1000000"),
        num("0.1"),
        num("1000"),
        num("-1000"),
        price_one(),
        DeltaNeutralityFeeReason::PositionOpen,
        num("0"),
        num("0.1"),
    );
    // The fund holds 0.1, so the 0.5 owed back is paid up to that.
    let r = r.unwrap();
    assert_eq!(r.fee, num("-0.1"));
    assert_eq!(r.protocol_fees, num("0"));
    assert_eq!(r.total_funds_after, num("0"));
}

#[test]
fn open_interest_adjusts() {
    let r = check_adjust_net_open_interest(
        num("10"),
        num("5"),
        num("3"),
        DirectionToNotional::Long,
        false,
        num("0.05"),
        num("1000000"),
        MarketType::CollateralIsQuote,
    )
    .unwrap();
    assert_eq!(r, AdjustOpenInterestResult::Long(num("13")));
    let r = check_adjust_net_open_interest(
        num("10"),
        num("5"),
        num("-2"),
        DirectionToNotional::Short,
        false,
        num("0.05"),
        num("1000000"),
        MarketType::CollateralIsQuote,
    )
    .unwrap();
    assert_eq!(r, AdjustOpenInterestResult::Short(num("7")));
}

#[test]
fn open_interest_never_negative() {
    let r = check_adjust_net_open_interest(
        num("1"),
        num("5"),
        num("-3"),
        DirectionToNotional::Long,
        false,
        num("0.05"),
        num("1000000"),
        MarketType::CollateralIsQuote,
    );
    assert_eq!(r.unwrap_err(), PerpError::LongInterestWouldBeNegative);
    let r = check_adjust_net_open_interest(
        num("1"),
        num("5"),
        num("6"),
        DirectionToNotional::Short,
        false,
        num("0.05"),
        num("1000000"),
        MarketType::CollateralIsQuote,
    );
    assert_eq!(r.unwrap_err(), PerpError::ShortInterestWouldBeNegative);
}

#[test]
fn open_interest_newly_long_refused() {
    let r = check_adjust_net_open_interest(
        num("0"),
        num("0"),
        num("60000"),
        DirectionToNotional::Long,
        true,
        num("0.05"),
        num("1000000"),
        MarketType::CollateralIsQuote,
    );
    assert!(matches!(r, Err(PerpError::DeltaNeutralityFeeNewlyLong { .. })));
}

#[test]
fn open_interest_already_short_refused() {
    let r = check_adjust_net_open_interest(
        num("0"),
        num("60000"),
        num("-1"),
        DirectionToNotional::Short,
        true,
        num("0.05"),
        num("1000000"),
        MarketType::CollateralIsQuote,
    );
    assert!(matches!(r, Err(PerpError::DeltaNeutralityFeeAlreadyShort { .. })));
}

#[test]
fn open_interest_flip_refused() {
    let r = check_adjust_net_open_interest(
        num("60000"),
        num("0"),
        num("-120000"),
        DirectionToNotional::Short,
        true,
        num("0.05"),
        num("1000000"),
        MarketType::CollateralIsQuote,
    );
    assert!(matches!(r, Err(PerpError::DeltaNeutralityFeeLongToShort { .. })));
}

#[test]
fn open_interest_rebalancing_allowed() {
    let r = check_adjust_net_open_interest(
        num("60000"),
        num("0"),
        num("-20000"),
        DirectionToNotional::Short,
        true,
        num("0.05"),
        num("1000000"),
        MarketType::CollateralIsQuote,
    );
    assert_eq!(r.unwrap(), AdjustOpenInterestResult::Short(num("20000")));
}
