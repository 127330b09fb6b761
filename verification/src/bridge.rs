//! The Pyth bridge: composing a market's price from Pyth feeds, and
//! deciding whether a price update it pushed to the market stands.
use crate::gather::{pyth_number, pyth_price_no_older_than, spec_pyth_number, PythPrice};
use crate::number::{abs, checked, odiv, opt_view, scale, trunc_mul, Number};
use crate::oracle::OracleError;
use vstd::prelude::*;

verus! {

/// A Pyth price feed of a route, and whether its price is inverted.
#[derive(Clone, Copy, Debug, PartialEq, Eq, Structural)]
pub struct PythFeedAnswer {
    /// The feed's price, as Pyth answered it.
    pub price: PythPrice,
    pub inverted: bool,
}

/// Composes the price so far with the next one on the route: the next
/// price is inverted first when the feed says so.
pub open spec fn spec_compose_price(prev: int, curr: int, inverted: bool) -> Option<int> {
    let c = if inverted {
        odiv(Some(scale()), Some(curr))
    } else {
        Some(curr)
    };
    match c {
        None => None,
        Some(c) => checked(trunc_mul(prev, c)),
    }
}

/// Composes the price so far with the next one on the route.
pub fn compose_price(prev: Number, curr: Number, curr_inverted: bool) -> (r: Option<Number>)
    ensures
        opt_view(r) == spec_compose_price(prev@, curr@, curr_inverted),
{
    let c = if curr_inverted {
        Number::one().checked_div(&curr)?
    } else {
        curr
    };
    prev.checked_mul(&c)
}

/// Every feed's publish time differs from the current time by an amount
/// that a 64-bit signed integer holds.
pub open spec fn publish_times_representable(feeds: Seq<PythFeedAnswer>, now: i64) -> bool {
    forall|i: int| 0 <= i < feeds.len() ==> i64::MIN < #[trigger] feeds[i].price.publish_time - now <= i64::MAX
}

/// The route's price over its first `n` feeds, with the latest publish
/// time: each price must have been published within the age tolerance of
/// the current time. The first feed starts the route as it is (its
/// inversion flag is not applied); each later one composes with it.
pub open spec fn spec_pyth_fold(feeds: Seq<PythFeedAnswer>, now: i64, age: u64, n: int) -> Result<Option<(int, i64)>, OracleError>
    decreases n,
{
    if n <= 0 {
        Ok(None)
    } else {
        match spec_pyth_fold(feeds, now, age, n - 1) {
            Err(e) => Err(e),
            Ok(acc) => {
                let f = feeds[n - 1];
                if abs(f.price.publish_time - now) > age {
                    Err(OracleError::PriceTooOld)
                } else {
                    match spec_pyth_number(f.price.price as int, f.price.expo as int) {
                        None => Err(OracleError::Arithmetic),
                        Some(p) => match acc {
                            None => Ok(Some((p, f.price.publish_time))),
                            Some((prev, t)) => match spec_compose_price(prev, p, f.inverted) {
                                None => Err(OracleError::Arithmetic),
                                Some(c) => Ok(
                                    Some(
                                        (
                                            c,
                                            if f.price.publish_time >= t {
                                                f.price.publish_time
                                            } else {
                                                t
                                            },
                                        ),
                                    ),
                                ),
                            },
                        },
                    }
                }
            },
        }
    }
}

/// Once the route fails on a feed, it fails with the same error whatever
/// follows.
proof fn lemma_fold_error_stays(feeds: Seq<PythFeedAnswer>, now: i64, age: u64, k: int, m: int)
    requires
        0 <= k <= m,
        spec_pyth_fold(feeds, now, age, k) is Err,
    ensures
        spec_pyth_fold(feeds, now, age, m) == spec_pyth_fold(feeds, now, age, k),
    decreases m - k,
{
    if m > k {
        lemma_fold_error_stays(feeds, now, age, k, m - 1);
    }
}

/// The route's price and its latest publish time; refused when a price is
/// too old, when there is no feed, or when the price is not strictly
/// positive.
pub open spec fn spec_pyth_price(feeds: Seq<PythFeedAnswer>, now: i64, age: u64) -> Result<(int, i64), OracleError> {
    match spec_pyth_fold(feeds, now, age, feeds.len() as int) {
        Err(e) => Err(e),
        Ok(None) => Err(OracleError::NoPriceFeeds),
        Ok(Some((p, t))) => if p > 0 {
            Ok((p, t))
        } else {
            Err(OracleError::NonPositivePrice)
        },
    }
}

/// Composes a route's price from the Pyth answers for its feeds (see
/// [`spec_pyth_price`]); `now` is the block time in seconds.
pub fn get_pyth_price(feeds: &Vec<PythFeedAnswer>, now: i64, age_tolerance_seconds: u64) -> (r: Result<
    (Number, i64),
    OracleError,
>)
    requires
        publish_times_representable(feeds@, now),
    ensures
        match spec_pyth_price(feeds@, now, age_tolerance_seconds) {
            Err(e) => r == Err::<(Number, i64), OracleError>(e),
            Ok((p, t)) => r matches Ok((x, y)) && x@ == p && y == t,
        },
{
    let mut acc: Option<(Number, i64)> = None;
    let mut i: usize = 0;
    while i < feeds.len()
        invariant
            i <= feeds@.len(),
            publish_times_representable(feeds@, now),
            match spec_pyth_fold(feeds@, now, age_tolerance_seconds, i as int) {
                Err(_) => false,
                Ok(None) => acc is None,
                Ok(Some((p, t))) => acc matches Some((x, y)) && x@ == p && y == t,
            },
        decreases feeds@.len() - i,
    {
        let f = feeds[i];
        proof {
            assert(i64::MIN < feeds@[i as int].price.publish_time - now <= i64::MAX);
        }
        let fresh = match pyth_price_no_older_than(f.price, now, age_tolerance_seconds) {
            Some(p) => p,
            None => {
                proof {
                    lemma_fold_error_stays(feeds@, now, age_tolerance_seconds, i + 1, feeds@.len() as int);
                }
                return Err(OracleError::PriceTooOld);
            },
        };
        let price = match pyth_number(fresh.price, fresh.expo) {
            Some(n) => n,
            None => {
                proof {
                    lemma_fold_error_stays(feeds@, now, age_tolerance_seconds, i + 1, feeds@.len() as int);
                }
                return Err(OracleError::Arithmetic);
            },
        };
        acc = match acc {
            None => Some((price, fresh.publish_time)),
            Some((prev, t)) => {
                let next = match compose_price(prev, price, f.inverted) {
                    Some(c) => c,
                    None => {
                        proof {
                            lemma_fold_error_stays(feeds@, now, age_tolerance_seconds, i + 1, feeds@.len() as int);
                        }
                        return Err(OracleError::Arithmetic);
                    },
                };
                let latest = if fresh.publish_time >= t {
                    fresh.publish_time
                } else {
                    t
                };
                Some((next, latest))
            },
        };
        i += 1;
    }
    match acc {
        None => Err(OracleError::NoPriceFeeds),
        Some((p, t)) => {
            if p.is_strictly_positive() {
                Ok((p, t))
            } else {
                Err(OracleError::NonPositivePrice)
            }
        },
    }
}

/// A market's price as the bridge pushes it, with the publish times.
#[derive(Clone, Copy, Debug, PartialEq, Eq, Structural)]
pub struct MarketPrice {
    pub price: Number,
    pub price_usd: Option<Number>,
    pub latest_price_publish_time: i64,
    pub latest_price_usd_publish_time: Option<i64>,
}

/// The market's price from its route and, when it has one, its USD route.
pub fn market_price(
    feeds: &Vec<PythFeedAnswer>,
    feeds_usd: Option<&Vec<PythFeedAnswer>>,
    now: i64,
    age_tolerance_seconds: u64,
) -> (r: Result<MarketPrice, OracleError>)
    requires
        publish_times_representable(feeds@, now),
        feeds_usd matches Some(u) ==> publish_times_representable(u@, now),
    ensures
        match spec_pyth_price(feeds@, now, age_tolerance_seconds) {
            Err(e) => r == Err::<MarketPrice, OracleError>(e),
            Ok((p, t)) => match feeds_usd {
                None => r matches Ok(m) && m.price@ == p && m.latest_price_publish_time == t && m.price_usd is None
                    && m.latest_price_usd_publish_time is None,
                Some(u) => match spec_pyth_price(u@, now, age_tolerance_seconds) {
                    Err(e) => r == Err::<MarketPrice, OracleError>(e),
                    Ok((pu, tu)) => r matches Ok(m) && m.price@ == p && m.latest_price_publish_time == t
                        && opt_view(m.price_usd) == Some(pu) && m.latest_price_usd_publish_time == Some(tu),
                },
            },
        },
{
    let (price, publish_time) = get_pyth_price(feeds, now, age_tolerance_seconds)?;
    match feeds_usd {
        None => Ok(
            MarketPrice { price, price_usd: None, latest_price_publish_time: publish_time, latest_price_usd_publish_time: None },
        ),
        Some(u) => {
            let (price_usd, publish_time_usd) = get_pyth_price(u, now, age_tolerance_seconds)?;
            Ok(
                MarketPrice {
                    price,
                    price_usd: Some(price_usd),
                    latest_price_publish_time: publish_time,
                    latest_price_usd_publish_time: Some(publish_time_usd),
                },
            )
        },
    }
}

/// Why a price update pushed by the bridge does not stand.
#[derive(Clone, Copy, Debug, PartialEq, Eq, Structural)]
pub enum BridgeReplyError {
    /// The block time went backwards since the last update.
    TimeMovedBackwards,
    /// A price was already pushed in this block.
    PriceAlreadyUpdated,
    /// The market gained or lost its USD price feed.
    PriceUsdFeedChanged,
    /// The price is not newer than the last one pushed.
    NoNewPriceData,
    /// The market refused the update.
    SubmessageFailed,
}

/// The first reason, in order, for which an update does not stand: the
/// block time must move forward; the USD feed must keep existing or not;
/// the prices must be newer than the last ones; and the market must
/// accept the update.
pub open spec fn spec_reply_error(
    prev_block_time: Option<u64>,
    now: u64,
    prev_market_price: Option<MarketPrice>,
    market_price: MarketPrice,
    reply_ok: bool,
) -> Option<BridgeReplyError> {
    let time_error = match prev_block_time {
        None => None,
        Some(prev) => if now < prev {
            Some(BridgeReplyError::TimeMovedBackwards)
        } else if now == prev {
            Some(BridgeReplyError::PriceAlreadyUpdated)
        } else {
            None
        },
    };
    let price_errors: (Option<BridgeReplyError>, Option<BridgeReplyError>) = match prev_market_price {
        None => (None, None),
        Some(prev) => {
            let price_valid = market_price.latest_price_publish_time > prev.latest_price_publish_time;
            let (changed, usd_valid) = match (prev.latest_price_usd_publish_time, market_price.latest_price_usd_publish_time) {
                (None, Some(_)) | (Some(_), None) => (true, false),
                (None, None) => (false, price_valid),
                (Some(p), Some(c)) => (false, c > p),
            };
            (
                if changed {
                    Some(BridgeReplyError::PriceUsdFeedChanged)
                } else {
                    None
                },
                if !price_valid || !usd_valid {
                    Some(BridgeReplyError::NoNewPriceData)
                } else {
                    None
                },
            )
        },
    };
    let reply_error = if reply_ok {
        None
    } else {
        Some(BridgeReplyError::SubmessageFailed)
    };
    if time_error is Some {
        time_error
    } else if price_errors.0 is Some {
        price_errors.0
    } else if price_errors.1 is Some {
        price_errors.1
    } else {
        reply_error
    }
}

/// Decides the outcome of a price update the bridge pushed: the first
/// error found (see [`spec_reply_error`]) is returned when the update asks
/// to fail on errors; otherwise, or without error, the new price and block
/// time are recorded as the last ones.
pub fn handle_reply(
    prev_block_time: Option<u64>,
    now: u64,
    prev_market_price: Option<MarketPrice>,
    market_price: MarketPrice,
    reply_ok: bool,
    bail_on_error: bool,
) -> (r: Result<(MarketPrice, u64), BridgeReplyError>)
    ensures
        match spec_reply_error(prev_block_time, now, prev_market_price, market_price, reply_ok) {
            Some(e) => if bail_on_error {
                r == Err::<(MarketPrice, u64), BridgeReplyError>(e)
            } else {
                r == Ok::<(MarketPrice, u64), BridgeReplyError>((market_price, now))
            },
            None => r == Ok::<(MarketPrice, u64), BridgeReplyError>((market_price, now)),
        },
{
    let mut err: Option<BridgeReplyError> = None;
    if let Some(prev) = prev_block_time {
        if now < prev {
            err = Some(BridgeReplyError::TimeMovedBackwards);
        } else if now == prev {
            err = Some(BridgeReplyError::PriceAlreadyUpdated);
        }
    }
    if let Some(prev) = prev_market_price {
        let price_valid = market_price.latest_price_publish_time > prev.latest_price_publish_time;
        let usd_valid = match (prev.latest_price_usd_publish_time, market_price.latest_price_usd_publish_time) {
            (None, Some(_)) | (Some(_), None) => {
                if err.is_none() {
                    err = Some(BridgeReplyError::PriceUsdFeedChanged);
                }
                false
            },
            (None, None) => price_valid,
            (Some(p), Some(c)) => c > p,
        };
        if !price_valid || !usd_valid {
            if err.is_none() {
                err = Some(BridgeReplyError::NoNewPriceData);
            }
        }
    }
    if !reply_ok && err.is_none() {
        err = Some(BridgeReplyError::SubmessageFailed);
    }
    if bail_on_error {
        if let Some(e) = err {
            return Err(e);
        }
    }
    Ok((market_price, now))
}

} // verus!
