//! Composing a spot price from oracle feeds.
use crate::keyed::{find, key_index, lemma_key_index};
use crate::number::{checked, odiv, omul, opt_view, scale, trunc_div, trunc_mul, Number};
use crate::price::{into_notional_price, spec_into_notional_price, MarketType};
use vstd::prelude::*;

verus! {

/// Where a feed's price comes from.
#[derive(Clone, Debug)]
pub enum SpotPriceFeedData {
    /// A Pyth price feed, by its identifier (hex).
    Pyth { id: String, age_tolerance_seconds: u32 },
    /// A Sei oracle exchange rate, by denomination.
    Sei { denom: String },
    /// A Stride redemption rate, by denomination.
    Stride { denom: String, age_tolerance_seconds: u32 },
    /// A constant price.
    Constant { price: Number },
    /// A simple oracle contract, by address.
    Simple { contract: String, age_tolerance_seconds: u32 },
}

/// One feed of a composed price.
#[derive(Clone, Debug)]
pub struct SpotPriceFeed {
    pub data: SpotPriceFeedData,
    /// Use the inverse of the feed's price.
    pub inverted: bool,
    /// Whether the feed's publish time must stay close to the others'.
    pub volatile: Option<bool>,
}

/// A price reported by an oracle.
#[derive(Clone, Copy, Debug, PartialEq, Eq, Structural)]
pub struct OracleFeedResp {
    /// The price (strictly positive).
    pub price: Number,
    /// Publish time, in nanoseconds.
    pub publish_time: u64,
    pub volatile: bool,
}

/// A price reported by a simple oracle contract.
#[derive(Clone, Copy, Debug, PartialEq, Eq, Structural)]
pub struct SimpleOracleResp {
    /// The price (strictly positive).
    pub value: Number,
    /// Publish time, in nanoseconds, when the contract reports one.
    pub timestamp: Option<u64>,
    pub volatile: bool,
}

/// The oracle prices gathered for a market's feeds.
#[derive(Clone, Debug)]
pub struct OraclePriceInternal {
    pub pyth: Vec<(String, OracleFeedResp)>,
    pub sei: Vec<(String, OracleFeedResp)>,
    pub stride: Vec<(String, OracleFeedResp)>,
    pub simple: Vec<(String, SimpleOracleResp)>,
}

/// Why a price could not be composed.
#[derive(Clone, Copy, Debug, PartialEq, Eq, Structural)]
pub enum OracleError {
    /// No price was gathered for a feed.
    MissingFeedPrice,
    /// There are no feeds.
    NoPriceFeeds,
    /// The composed price is not strictly positive.
    NonPositivePrice,
    /// A step overflowed.
    Arithmetic,
    /// Volatile feeds were published too far apart.
    VolatilePriceFeedTimeDelta { oldest: u64, newest: u64 },
    /// A manually set spot price has no oracle price.
    ManualSpotPrice,
    /// A Pyth feed is configured without a Pyth contract.
    PythConfigMissing,
    /// A Stride feed is configured without a Stride contract.
    StrideConfigMissing,
    /// Sei feeds are only available on the Sei network.
    SeiUnavailable,
    /// An oracle gave no answer for a feed.
    MissingOracleAnswer,
    /// An oracle's price is older than its feed tolerates.
    PriceTooOld,
    /// An oracle's publish time is negative.
    NegativePublishTime,
    /// An oracle's publish time is after the current time.
    PublishTimeInFuture,
    /// An oracle's price is not strictly positive.
    NonPositiveOraclePrice,
}

/// The price gathered for a feed, if any.
pub open spec fn spec_feed_price(o: OraclePriceInternal, data: SpotPriceFeedData) -> Option<int> {
    match data {
        SpotPriceFeedData::Pyth { id, .. } => {
            let i = key_index(o.pyth@, id@);
            if i >= 0 { Some(o.pyth@[i].1.price@) } else { None }
        },
        SpotPriceFeedData::Sei { denom } => {
            let i = key_index(o.sei@, denom@);
            if i >= 0 { Some(o.sei@[i].1.price@) } else { None }
        },
        SpotPriceFeedData::Stride { denom, .. } => {
            let i = key_index(o.stride@, denom@);
            if i >= 0 { Some(o.stride@[i].1.price@) } else { None }
        },
        SpotPriceFeedData::Constant { price } => Some(price@),
        SpotPriceFeedData::Simple { contract, .. } => {
            let i = key_index(o.simple@, contract@);
            if i >= 0 { Some(o.simple@[i].1.value@) } else { None }
        },
    }
}

/// The product of the first `n` feeds' prices (each inverted when asked),
/// `None` when a price is missing or a step overflows.
pub open spec fn spec_compose(o: OraclePriceInternal, feeds: Seq<SpotPriceFeed>, n: int) -> Option<Option<int>>
    decreases n,
{
    if n <= 0 {
        Some(None)
    } else {
        match spec_compose(o, feeds, n - 1) {
            None => None,
            Some(acc) => match spec_feed_price(o, feeds[n - 1].data) {
                None => None,
                Some(p) => {
                    let q = if feeds[n - 1].inverted { odiv(Some(scale()), Some(p)) } else { Some(p) };
                    match (acc, q) {
                        (_, None) => None,
                        (None, Some(q)) => Some(Some(q)),
                        (Some(a), Some(q)) => match checked(trunc_mul(a, q)) {
                            None => None,
                            Some(v) => Some(Some(v)),
                        },
                    }
                },
            },
        }
    }
}

proof fn lemma_compose_stays_none(o: OraclePriceInternal, feeds: Seq<SpotPriceFeed>, k: int, m: int)
    requires
        k <= m,
        spec_compose(o, feeds, k) is None,
    ensures
        spec_compose(o, feeds, m) is None,
    decreases m - k,
{
    if k < m {
        lemma_compose_stays_none(o, feeds, k, m - 1);
    }
}

impl OraclePriceInternal {
    /// The price gathered for a feed.
    fn feed_price(&self, data: &SpotPriceFeedData) -> (r: Option<Number>)
        ensures
            opt_view(r) == spec_feed_price(*self, *data),
    {
        match data {
            SpotPriceFeedData::Pyth { id, .. } => match find(&self.pyth, id) {
                Some(i) => Some(self.pyth[i].1.price),
                None => None,
            },
            SpotPriceFeedData::Sei { denom } => match find(&self.sei, denom) {
                Some(i) => Some(self.sei[i].1.price),
                None => None,
            },
            SpotPriceFeedData::Stride { denom, .. } => match find(&self.stride, denom) {
                Some(i) => Some(self.stride[i].1.price),
                None => None,
            },
            SpotPriceFeedData::Constant { price } => Some(*price),
            SpotPriceFeedData::Simple { contract, .. } => match find(&self.simple, contract) {
                Some(i) => Some(self.simple[i].1.value),
                None => None,
            },
        }
    }

    /// Multiplies the prices of the feeds, each inverted when the feed says
    /// so; there must be at least one feed, every feed must have a price, and
    /// the result must be strictly positive.
    pub fn compose_price_feeds(&self, feeds: &Vec<SpotPriceFeed>) -> (r: Result<Number, OracleError>)
        ensures
            match spec_compose(*self, feeds@, feeds@.len() as int) {
                None => r == Err::<Number, OracleError>(OracleError::MissingFeedPrice) || r == Err::<
                    Number,
                    OracleError,
                >(OracleError::Arithmetic),
                Some(None) => r == Err::<Number, OracleError>(OracleError::NoPriceFeeds),
                Some(Some(v)) => if v > 0 {
                    r matches Ok(x) && x@ == v
                } else {
                    r == Err::<Number, OracleError>(OracleError::NonPositivePrice)
                },
            },
    {
        let mut acc: Option<Number> = None;
        let mut i: usize = 0;
        while i < feeds.len()
            invariant
                i <= feeds@.len(),
                spec_compose(*self, feeds@, i as int) == Some(opt_view(acc)),
            decreases feeds@.len() - i,
        {
            let price = match self.feed_price(&feeds[i].data) {
                Some(p) => p,
                None => {
                    proof {
                        lemma_compose_stays_none(*self, feeds@, i as int + 1, feeds@.len() as int);
                    }
                    return Err(OracleError::MissingFeedPrice);
                },
            };
            let price = if feeds[i].inverted {
                match Number::one().checked_div(&price) {
                    Some(q) => q,
                    None => {
                        proof {
                            lemma_compose_stays_none(*self, feeds@, i as int + 1, feeds@.len() as int);
                        }
                        return Err(OracleError::Arithmetic);
                    },
                }
            } else {
                price
            };
            acc = match acc {
                None => Some(price),
                Some(prev) => match prev.checked_mul(&price) {
                    Some(v) => Some(v),
                    None => {
                        proof {
                            lemma_compose_stays_none(*self, feeds@, i as int + 1, feeds@.len() as int);
                        }
                        return Err(OracleError::Arithmetic);
                    },
                },
            };
            i += 1;
        }
        match acc {
            Some(price) => if price.is_strictly_positive() {
                Ok(price)
            } else {
                Err(OracleError::NonPositivePrice)
            },
            None => Err(OracleError::NoPriceFeeds),
        }
    }
}

/// A composed spot price, as stored.
#[derive(Clone, Copy, Debug, PartialEq, Eq, Structural)]
pub struct PriceStorage {
    /// Notional price.
    pub price: Number,
    /// Collateral price in USD.
    pub price_usd: Number,
    /// Base price in quote, as composed.
    pub price_base: Number,
    pub publish_time: Option<u64>,
    pub publish_time_usd: Option<u64>,
    pub block_time: Option<u64>,
}

impl OraclePriceInternal {
    /// Composes the base price and the USD price of a market from their
    /// feeds; the notional price follows from the base price.
    pub fn compose_price(
        &self,
        market_type: MarketType,
        feeds: &Vec<SpotPriceFeed>,
        feeds_usd: &Vec<SpotPriceFeed>,
        block_time: u64,
    ) -> (r: Result<PriceStorage, OracleError>)
        ensures
            r matches Ok(p) ==> ({
                &&& spec_compose(*self, feeds@, feeds@.len() as int) == Some(Some(p.price_base@))
                &&& spec_compose(*self, feeds_usd@, feeds_usd@.len() as int) == Some(Some(p.price_usd@))
                &&& p.price_base@ > 0 && p.price_usd@ > 0
                &&& spec_into_notional_price(p.price_base@, market_type) == Some(p.price@)
                &&& p.publish_time is None && p.publish_time_usd is None && p.block_time == Some(block_time)
            }),
            ({
                let base = spec_compose(*self, feeds@, feeds@.len() as int);
                let usd = spec_compose(*self, feeds_usd@, feeds_usd@.len() as int);
                r is Ok <==> (base matches Some(Some(b)) && b > 0 && (usd matches Some(Some(u)) && u > 0
                    && spec_into_notional_price(b, market_type) is Some))
            }),
            r matches Err(e) ==> (e == OracleError::MissingFeedPrice || e == OracleError::Arithmetic || e
                == OracleError::NoPriceFeeds || e == OracleError::NonPositivePrice),
    {
        let price_base = self.compose_price_feeds(feeds)?;
        let price_usd = self.compose_price_feeds(feeds_usd)?;
        let price = match into_notional_price(&price_base, market_type) {
            Some(p) => p,
            None => return Err(OracleError::Arithmetic),
        };
        Ok(
            PriceStorage {
                price,
                price_usd,
                price_base,
                publish_time: None,
                publish_time_usd: None,
                block_time: Some(block_time),
            },
        )
    }
}

/// Extends the oldest and newest times seen with `t`.
pub open spec fn add_time(acc: Option<(u64, u64)>, t: u64) -> Option<(u64, u64)> {
    match acc {
        None => Some((t, t)),
        Some((oldest, newest)) => Some((if t < oldest { t } else { oldest }, if t > newest { t } else { newest })),
    }
}

/// The oldest and newest publish times of the volatile feeds among the
/// first `n` entries, starting from `acc`.
pub open spec fn fold_times(entries: Seq<(String, OracleFeedResp)>, n: int, acc: Option<(u64, u64)>) -> Option<(u64, u64)>
    decreases n,
{
    if n <= 0 {
        acc
    } else {
        let a = fold_times(entries, n - 1, acc);
        if entries[n - 1].1.volatile {
            add_time(a, entries[n - 1].1.publish_time)
        } else {
            a
        }
    }
}

/// The same for simple oracles, which count only with a publish time.
pub open spec fn fold_simple_times(entries: Seq<(String, SimpleOracleResp)>, n: int, acc: Option<(u64, u64)>) -> Option<(u64, u64)>
    decreases n,
{
    if n <= 0 {
        acc
    } else {
        let a = fold_simple_times(entries, n - 1, acc);
        match (entries[n - 1].1.volatile, entries[n - 1].1.timestamp) {
            (true, Some(t)) => add_time(a, t),
            _ => a,
        }
    }
}

/// The oldest and newest publish times of all volatile feeds.
pub open spec fn spec_oldest_newest(o: OraclePriceInternal) -> Option<(u64, u64)> {
    let a = fold_times(o.pyth@, o.pyth@.len() as int, None);
    let b = fold_times(o.sei@, o.sei@.len() as int, a);
    let c = fold_times(o.stride@, o.stride@.len() as int, b);
    fold_simple_times(o.simple@, o.simple@.len() as int, c)
}

fn add_time_exec(acc: Option<(u64, u64)>, t: u64) -> (r: Option<(u64, u64)>)
    ensures
        r == add_time(acc, t),
{
    match acc {
        None => Some((t, t)),
        Some((oldest, newest)) => Some((if t < oldest { t } else { oldest }, if t > newest { t } else { newest })),
    }
}

fn fold_times_exec(entries: &Vec<(String, OracleFeedResp)>, acc: Option<(u64, u64)>) -> (r: Option<(u64, u64)>)
    ensures
        r == fold_times(entries@, entries@.len() as int, acc),
{
    let mut cur = acc;
    let mut i: usize = 0;
    while i < entries.len()
        invariant
            i <= entries@.len(),
            cur == fold_times(entries@, i as int, acc),
        decreases entries@.len() - i,
    {
        if entries[i].1.volatile {
            cur = add_time_exec(cur, entries[i].1.publish_time);
        }
        i += 1;
    }
    cur
}

fn fold_simple_times_exec(entries: &Vec<(String, SimpleOracleResp)>, acc: Option<(u64, u64)>) -> (r: Option<(u64, u64)>)
    ensures
        r == fold_simple_times(entries@, entries@.len() as int, acc),
{
    let mut cur = acc;
    let mut i: usize = 0;
    while i < entries.len()
        invariant
            i <= entries@.len(),
            cur == fold_simple_times(entries@, i as int, acc),
        decreases entries@.len() - i,
    {
        if entries[i].1.volatile {
            match entries[i].1.timestamp {
                Some(t) => {
                    cur = add_time_exec(cur, t);
                },
                None => {},
            }
        }
        i += 1;
    }
    cur
}

/// Nanoseconds in a second.
pub const NS_PER_SECOND: u64 = 1_000_000_000u64;

impl OraclePriceInternal {
    /// The publish time of the composed price: the oldest publish time of
    /// the volatile feeds, provided the newest is no more than
    /// `volatile_diff_seconds` later; `None` when no volatile feed has a
    /// publish time.
    pub fn calculate_publish_time(&self, volatile_diff_seconds: u32) -> (r: Result<Option<u64>, OracleError>)
        ensures
            match spec_oldest_newest(*self) {
                None => r == Ok::<Option<u64>, OracleError>(None),
                Some((oldest, newest)) => if newest - oldest <= volatile_diff_seconds * NS_PER_SECOND {
                    r == Ok::<Option<u64>, OracleError>(Some(oldest))
                } else {
                    r == Err::<Option<u64>, OracleError>(OracleError::VolatilePriceFeedTimeDelta { oldest, newest })
                },
            },
    {
        let a = fold_times_exec(&self.pyth, None);
        let b = fold_times_exec(&self.sei, a);
        let c = fold_times_exec(&self.stride, b);
        let d = fold_simple_times_exec(&self.simple, c);
        match d {
            None => Ok(None),
            Some((oldest, newest)) => {
                proof {
                    lemma_fold_ordered(*self);
                }
                let diff = newest - oldest;
                let allowed: u64 = (volatile_diff_seconds as u64) * NS_PER_SECOND;
                if diff <= allowed {
                    Ok(Some(oldest))
                } else {
                    Err(OracleError::VolatilePriceFeedTimeDelta { oldest, newest })
                }
            },
        }
    }
}

proof fn lemma_fold_times_ordered(entries: Seq<(String, OracleFeedResp)>, n: int, acc: Option<(u64, u64)>)
    requires
        acc matches Some((o, w)) ==> o <= w,
    ensures
        fold_times(entries, n, acc) matches Some((o, w)) ==> o <= w,
    decreases n,
{
    if n > 0 {
        lemma_fold_times_ordered(entries, n - 1, acc);
    }
}

proof fn lemma_fold_simple_ordered(entries: Seq<(String, SimpleOracleResp)>, n: int, acc: Option<(u64, u64)>)
    requires
        acc matches Some((o, w)) ==> o <= w,
    ensures
        fold_simple_times(entries, n, acc) matches Some((o, w)) ==> o <= w,
    decreases n,
{
    if n > 0 {
        lemma_fold_simple_ordered(entries, n - 1, acc);
    }
}

/// The oldest volatile publish time is never after the newest.
pub proof fn lemma_fold_ordered(o: OraclePriceInternal)
    ensures
        spec_oldest_newest(o) matches Some((oldest, newest)) ==> oldest <= newest,
{
    let a = fold_times(o.pyth@, o.pyth@.len() as int, None);
    lemma_fold_times_ordered(o.pyth@, o.pyth@.len() as int, None);
    let b = fold_times(o.sei@, o.sei@.len() as int, a);
    lemma_fold_times_ordered(o.sei@, o.sei@.len() as int, a);
    let c = fold_times(o.stride@, o.stride@.len() as int, b);
    lemma_fold_times_ordered(o.stride@, o.stride@.len() as int, b);
    lemma_fold_simple_ordered(o.simple@, o.simple@.len() as int, c);
}

/// Every volatile Pyth feed's publish time lies between the oldest and the
/// newest publish times.
pub proof fn lemma_pyth_times_within(entries: Seq<(String, OracleFeedResp)>, n: int, acc: Option<(u64, u64)>, i: int)
    requires
        0 <= i < n <= entries.len(),
        entries[i].1.volatile,
    ensures
        fold_times(entries, n, acc) matches Some((oldest, newest)) && oldest <= entries[i].1.publish_time <= newest,
    decreases n,
{
    if i < n - 1 {
        lemma_pyth_times_within(entries, n - 1, acc, i);
    }
}

} // verus!
