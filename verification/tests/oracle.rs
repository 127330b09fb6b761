use levana_perps::bridge::{compose_price, get_pyth_price, handle_reply, market_price, BridgeReplyError, MarketPrice, PythFeedAnswer};
use levana_perps::gather::{
    get_oracle_price, pyth_number, OracleAnswers, PythPrice, SimpleAnswer, SpotPriceConfig, StrideAnswer,
};
use levana_perps::number::Number;
use levana_perps::oracle::{OracleError, OracleFeedResp, OraclePriceInternal, SpotPriceFeed, SpotPriceFeedData};
use levana_perps::price::MarketType;

/// Parses a decimal such as "-9" or "0.05" into a number.
fn num(s: &str) -> Number {
    let (negative, digits) = match s.strip_prefix('-') {
        Some(rest) => (true, rest),
        None => (false, s),
    };
    let (whole, frac) = match digits.split_once('.') {
        Some((w, f)) => (w, f),
        None => (digits, ""),
    };
    let mut atoms: i128 = whole.parse::<i128>().unwrap() * 1_000_000_000_000_000_000;
    let mut scale: i128 = 100_000_000_000_000_000;
    for c in frac.chars() {
        atoms += (c.to_digit(10).unwrap() as i128) * scale;
        scale /= 10;
    }
    if negative {
        atoms = -atoms;
    }
    Number::from_atoms(atoms).unwrap()
}

const SECOND: u64 = 1_000_000_000;

fn pyth_feed(id: &str, inverted: bool) -> SpotPriceFeed {
    SpotPriceFeed {
        data: SpotPriceFeedData::Pyth { id: id.to_string(), age_tolerance_seconds: 60 },
        inverted,
        volatile: None,
    }
}

fn eth_btc_answers(publish_time: i64) -> OracleAnswers {
    OracleAnswers {
        pyth: vec![
            ("eth".to_string(), PythPrice { price: 179276800001, conf: 0, expo: -8, publish_time }),
            ("btc".to_string(), PythPrice { price: 2856631500000, conf: 0, expo: -8, publish_time }),
        ],
        stride: vec![],
        simple: vec![],
    }
}

fn oracle_config(feeds: Vec<SpotPriceFeed>, feeds_usd: Vec<SpotPriceFeed>) -> SpotPriceConfig {
    SpotPriceConfig::Oracle {
        pyth: Some("pyth".to_string()),
        stride: Some("stride".to_string()),
        feeds,
        feeds_usd,
        volatile_diff_seconds: None,
    }
}

#[test]
fn price_inverted_compose() {
    let eth = pyth_number(179276800001, -8).unwrap();
    let btc = pyth_number(2856631500000, -8).unwrap();
    let btc = Number::one().checked_div(&btc).unwrap();
    let eth_btc = eth.checked_mul(&btc).unwrap();

    assert_eq!(eth_btc, num("0.062758112133468261"));
}

#[test]
fn pyth_route_compose() {
    let eth_usd = pyth_number(179276800001, -8).unwrap();
    let btc_usd = pyth_number(2856631500000, -8).unwrap();
    let eth_btc = compose_price(eth_usd, btc_usd, true).unwrap();

    assert_eq!(eth_btc, num("0.062758112133468261"));
}

#[test]
fn oracle_route_compose() {
    let config = oracle_config(vec![pyth_feed("eth", false), pyth_feed("btc", true)], vec![pyth_feed("eth", false)]);
    let answers = eth_btc_answers(0);
    let prices = get_oracle_price(&config, false, 0, &answers).unwrap();
    let feeds = vec![pyth_feed("eth", false), pyth_feed("btc", true)];
    let eth_btc = prices.compose_price_feeds(&feeds).unwrap();

    assert_eq!(eth_btc, num("0.062758112133468261"));
}

fn answer(price: i64, publish_time: i64, inverted: bool) -> PythFeedAnswer {
    PythFeedAnswer { price: PythPrice { price, conf: 0, expo: -8, publish_time }, inverted }
}

#[test]
fn bridge_route_takes_latest_publish_time() {
    let feeds = vec![answer(179276800001, 95, false), answer(2856631500000, 98, true)];
    let (price, time) = get_pyth_price(&feeds, 100, 10).unwrap();
    assert_eq!(price, num("0.062758112133468261"));
    assert_eq!(time, 98);
}

#[test]
fn bridge_route_ignores_first_inversion() {
    let feeds = vec![answer(200000000, 100, true)];
    assert_eq!(get_pyth_price(&feeds, 100, 10).unwrap().0, num("2"));
}

#[test]
fn bridge_route_refusals() {
    assert_eq!(get_pyth_price(&vec![answer(200000000, 80, false)], 100, 10), Err(OracleError::PriceTooOld));
    assert_eq!(get_pyth_price(&vec![], 100, 10), Err(OracleError::NoPriceFeeds));
    assert_eq!(get_pyth_price(&vec![answer(-200000000, 100, false)], 100, 10), Err(OracleError::NonPositivePrice));
}

#[test]
fn bridge_market_price_with_usd_route() {
    let feeds = vec![answer(200000000, 99, false)];
    let usd = vec![answer(100000000, 97, false)];
    let m = market_price(&feeds, Some(&usd), 100, 10).unwrap();
    assert_eq!(m.price, num("2"));
    assert_eq!(m.price_usd, Some(num("1")));
    assert_eq!(m.latest_price_publish_time, 99);
    assert_eq!(m.latest_price_usd_publish_time, Some(97));
}

fn bridge_price(t: i64, tu: Option<i64>) -> MarketPrice {
    MarketPrice { price: num("2"), price_usd: tu.map(|_| num("1")), latest_price_publish_time: t, latest_price_usd_publish_time: tu }
}

#[test]
fn bridge_reply_checks() {
    let new = bridge_price(10, None);
    assert_eq!(handle_reply(Some(5), 6, Some(bridge_price(9, None)), new, true, true), Ok((new, 6)));
    assert_eq!(handle_reply(Some(7), 6, None, new, true, true), Err(BridgeReplyError::TimeMovedBackwards));
    assert_eq!(handle_reply(Some(6), 6, None, new, true, true), Err(BridgeReplyError::PriceAlreadyUpdated));
    assert_eq!(handle_reply(None, 6, Some(bridge_price(10, None)), new, true, true), Err(BridgeReplyError::NoNewPriceData));
    assert_eq!(handle_reply(None, 6, Some(bridge_price(9, Some(3))), new, true, true), Err(BridgeReplyError::PriceUsdFeedChanged));
    assert_eq!(handle_reply(None, 6, None, new, false, true), Err(BridgeReplyError::SubmessageFailed));
    assert_eq!(handle_reply(Some(6), 6, None, new, false, false), Ok((new, 6)));
}

#[test]
fn pyth_number_exponents() {
    assert_eq!(pyth_number(15, 2).unwrap(), num("1500"));
    assert_eq!(pyth_number(-15, -1).unwrap(), num("-1.5"));
    assert_eq!(pyth_number(15, 0).unwrap(), num("15"));
    assert!(pyth_number(15, 21).is_none());
    assert!(pyth_number(15, -21).is_none());
}

#[test]
fn oracle_gathers_each_key_once() {
    let config = oracle_config(vec![pyth_feed("eth", false), pyth_feed("eth", true)], vec![pyth_feed("btc", false)]);
    let prices = get_oracle_price(&config, true, 100 * SECOND, &eth_btc_answers(90)).unwrap();
    assert_eq!(prices.pyth.len(), 2);
    assert_eq!(prices.pyth[0].0, "eth");
    assert_eq!(prices.pyth[0].1, OracleFeedResp { price: num("1792.76800001"), publish_time: 90 * SECOND, volatile: true });
    assert_eq!(prices.pyth[1].0, "btc");
}

#[test]
fn oracle_refuses_old_pyth_price() {
    let config = oracle_config(vec![pyth_feed("eth", false)], vec![]);
    let r = get_oracle_price(&config, true, 100 * SECOND, &eth_btc_answers(39));
    assert_eq!(r.unwrap_err(), OracleError::PriceTooOld);
    // Without age checks the same price is accepted.
    assert!(get_oracle_price(&config, false, 100 * SECOND, &eth_btc_answers(39)).is_ok());
    // Exactly at the tolerance it is accepted.
    assert!(get_oracle_price(&config, true, 100 * SECOND, &eth_btc_answers(40)).is_ok());
}

#[test]
fn oracle_refuses_manual_price() {
    let config = SpotPriceConfig::Manual { admin: None };
    assert_eq!(get_oracle_price(&config, true, 0, &eth_btc_answers(0)).unwrap_err(), OracleError::ManualSpotPrice);
}

#[test]
fn oracle_refuses_missing_pyth_config() {
    let config = SpotPriceConfig::Oracle {
        pyth: None,
        stride: None,
        feeds: vec![pyth_feed("eth", false)],
        feeds_usd: vec![],
        volatile_diff_seconds: None,
    };
    assert_eq!(get_oracle_price(&config, false, 0, &eth_btc_answers(0)).unwrap_err(), OracleError::PythConfigMissing);
}

#[test]
fn oracle_refuses_missing_answer_and_sei() {
    let config = oracle_config(vec![pyth_feed("doge", false)], vec![]);
    assert_eq!(get_oracle_price(&config, false, 0, &eth_btc_answers(0)).unwrap_err(), OracleError::MissingOracleAnswer);
    let sei = SpotPriceFeed { data: SpotPriceFeedData::Sei { denom: "usei".to_string() }, inverted: false, volatile: None };
    let config = oracle_config(vec![sei], vec![]);
    assert_eq!(get_oracle_price(&config, false, 0, &eth_btc_answers(0)).unwrap_err(), OracleError::SeiUnavailable);
}

#[test]
fn oracle_checks_stride_and_simple() {
    let stride = SpotPriceFeed {
        data: SpotPriceFeedData::Stride { denom: "statom".to_string(), age_tolerance_seconds: 10 },
        inverted: false,
        volatile: None,
    };
    let simple = SpotPriceFeed {
        data: SpotPriceFeedData::Simple { contract: "oracle".to_string(), age_tolerance_seconds: 10 },
        inverted: false,
        volatile: None,
    };
    let answers = OracleAnswers {
        pyth: vec![],
        stride: vec![("statom".to_string(), StrideAnswer { redemption_rate: num("1.2"), update_time: 95 })],
        simple: vec![(
            "oracle".to_string(),
            SimpleAnswer { value: num("3"), timestamp: None, block_time: 92 * SECOND, volatile: true },
        )],
    };
    let config = oracle_config(vec![stride, simple], vec![]);
    let prices = get_oracle_price(&config, true, 100 * SECOND, &answers).unwrap();
    assert_eq!(prices.stride[0].1, OracleFeedResp { price: num("1.2"), publish_time: 95 * SECOND, volatile: false });
    assert_eq!(prices.simple[0].1.value, num("3"));
    // Later, the simple oracle's block is too old.
    assert_eq!(get_oracle_price(&config, true, 103 * SECOND, &answers).unwrap_err(), OracleError::PriceTooOld);
    // A block after now is refused.
    assert_eq!(get_oracle_price(&config, true, 91 * SECOND, &answers).unwrap_err(), OracleError::PublishTimeInFuture);
}

#[test]
fn compose_price_of_market() {
    let prices = OraclePriceInternal {
        pyth: vec![("eth".to_string(), OracleFeedResp { price: num("2000"), publish_time: 5, volatile: true })],
        sei: vec![],
        stride: vec![],
        simple: vec![],
    };
    let feeds = vec![pyth_feed("eth", false)];
    let stored = prices.compose_price(MarketType::CollateralIsBase, &feeds, &feeds, 7).unwrap();
    assert_eq!(stored.price_base, num("2000"));
    assert_eq!(stored.price, num("0.0005"));
    assert_eq!(stored.price_usd, num("2000"));
    assert_eq!(stored.block_time, Some(7));
    assert_eq!(prices.compose_price_feeds(&vec![]).unwrap_err(), OracleError::NoPriceFeeds);
    assert_eq!(prices.compose_price_feeds(&vec![pyth_feed("btc", false)]).unwrap_err(), OracleError::MissingFeedPrice);
}

#[test]
fn publish_time_of_volatile_feeds() {
    let prices = OraclePriceInternal {
        pyth: vec![
            ("a".to_string(), OracleFeedResp { price: num("1"), publish_time: 10 * SECOND, volatile: true }),
            ("b".to_string(), OracleFeedResp { price: num("1"), publish_time: 14 * SECOND, volatile: true }),
            ("c".to_string(), OracleFeedResp { price: num("1"), publish_time: 1 * SECOND, volatile: false }),
        ],
        sei: vec![],
        stride: vec![],
        simple: vec![],
    };
    assert_eq!(prices.calculate_publish_time(5).unwrap(), Some(10 * SECOND));
    assert_eq!(
        prices.calculate_publish_time(3).unwrap_err(),
        OracleError::VolatilePriceFeedTimeDelta { oldest: 10 * SECOND, newest: 14 * SECOND }
    );
}

#[test]
fn compose_price_beyond_128_bits() {
    // A previous price of 1e19 times 100 is 1e21, whose atoms (1e39) need
    // more than 128 bits.
    let prev = Number::from_u128(10_000_000_000_000_000_000).unwrap();
    let curr = Number::from_u128(100).unwrap();
    let composed = levana_perps::bridge::compose_price(prev, curr, false).unwrap();
    assert_eq!(composed, Number::from_u128(1_000_000_000_000_000_000_000).unwrap());
    // Dividing back gives the previous price.
    assert_eq!(composed.checked_div(&curr).unwrap(), prev);
}

#[test]
fn numbers_hold_256_bit_atoms() {
    let big = Number::from_u128(u64::MAX as u128).unwrap();
    // (2^64 - 1)^2 units: about 3.4e56 atoms, beyond 128 bits.
    let square = big.checked_mul(&big).unwrap();
    assert_eq!(square.to_atoms(), None);
    assert_eq!(square.checked_div(&big).unwrap(), big);
    // Its square overflows 2^256 atoms.
    assert!(square.checked_mul(&square).is_none());
    assert_eq!(square.neg().checked_add(&square).unwrap(), Number::zero());
    assert!(square.neg().lt(&Number::zero()));
    assert_eq!(Number::from_atoms(-5).unwrap().to_atoms(), Some(-5));
    assert_eq!(Number::from_atoms(i128::MIN).unwrap().to_atoms(), Some(i128::MIN));
}

#[test]
fn numbers_hold_magnitudes_beyond_255_bits() {
    // 2^128 units times 2.5e20: about 8.5e76 atoms, between 2^255 and 2^256.
    let two_64 = Number::from_u128(1u128 << 64).unwrap();
    let two_128 = two_64.checked_mul(&two_64).unwrap();
    let big = two_128.checked_mul(&Number::from_u128(250_000_000_000_000_000_000).unwrap()).unwrap();
    let negative = big.neg();
    assert!(negative.lt(&Number::zero()));
    assert_eq!(negative.abs(), big);
    assert_eq!(big.checked_add(&negative).unwrap(), Number::zero());
    // Twice as much is beyond 2^256 - 1 atoms, either way.
    assert!(big.checked_add(&big).is_none());
    assert!(negative.checked_sub(&big).is_none());
    assert_eq!(big.checked_div(&two_128).unwrap(), Number::from_u128(250_000_000_000_000_000_000).unwrap());
}
