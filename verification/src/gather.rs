//! Gathering and checking the oracle prices that a market's feeds need.
use crate::keyed::{find, key_index, lemma_key_index};
use crate::number::{abs, checked, odiv, omul, opt_view, scale, Number};
use crate::oracle::{OracleError, OracleFeedResp, OraclePriceInternal, SimpleOracleResp, SpotPriceFeed, SpotPriceFeedData};
use vstd::prelude::*;

verus! {

/// Nanoseconds in a second.
pub const NANOS_PER_SECOND: u64 = 1_000_000_000u64;

/// A Pyth price as its feed reports it: `price * 10^expo`, published at
/// `publish_time` (Unix seconds).
#[derive(Clone, Copy, Debug, PartialEq, Eq, Structural)]
pub struct PythPrice {
    pub price: i64,
    pub conf: u64,
    pub expo: i32,
    pub publish_time: i64,
}

/// The price as long as it was published within `age` seconds of
/// `current_time` (either way).
///
/// Calls `pyth_sdk_cw::PriceFeed::get_price_no_older_than` on a feed holding
/// the price; its source returns the feed's price when the absolute
/// difference of the publish time and the current time is at most `age`,
/// and `None` otherwise. That difference must fit an `i64` (the source
/// subtracts and takes the absolute value without checks).
#[verifier::external_body]
pub(crate) fn pyth_price_no_older_than(p: PythPrice, current_time: i64, age: u64) -> (r: Option<PythPrice>)
    requires
        i64::MIN < p.publish_time - current_time <= i64::MAX,
    ensures
        r == (if abs(p.publish_time - current_time) > age {
            None
        } else {
            Some(p)
        }),
{
    let price = pyth_sdk_cw::Price { price: p.price, conf: p.conf, expo: p.expo, publish_time: p.publish_time };
    let feed = pyth_sdk_cw::PriceFeed::new(pyth_sdk_cw::PriceIdentifier::new([0u8; 32]), price, price);
    match feed.get_price_no_older_than(current_time, age) {
        Some(q) => Some(PythPrice { price: q.price, conf: q.conf, expo: q.expo, publish_time: q.publish_time }),
        None => None,
    }
}

/// Ten to the power `k`.
pub open spec fn pow10(k: nat) -> nat
    decreases k,
{
    if k == 0 {
        1
    } else {
        10 * pow10((k - 1) as nat)
    }
}

proof fn lemma_pow10_mono(i: nat, j: nat)
    requires
        i <= j,
    ensures
        1 <= pow10(i) <= pow10(j),
    decreases j,
{
    if i < j {
        lemma_pow10_mono(i, (j - 1) as nat);
    } else if i > 0 {
        lemma_pow10_mono((i - 1) as nat, (i - 1) as nat);
    }
}

/// The largest power of ten a Pyth exponent may scale by.
pub open spec fn max_pyth_exponent() -> nat {
    20
}

fn pow10_exec(k: u32) -> (r: u128)
    requires
        k <= max_pyth_exponent(),
    ensures
        r == pow10(k as nat),
{
    proof {
        reveal_with_fuel(pow10, 21);
        assert(pow10(20) == 100_000_000_000_000_000_000);
    }
    let mut v: u128 = 1;
    let mut i: u32 = 0;
    while i < k
        invariant
            i <= k <= 20,
            v == pow10(i as nat),
            pow10(20) == 100_000_000_000_000_000_000,
        decreases k - i,
    {
        proof {
            lemma_pow10_mono((i + 1) as nat, 20);
        }
        v = v * 10;
        i = i + 1;
    }
    v
}

/// The number a Pyth price stands for: `price * 10^expo`, divided with
/// truncation at 18 decimals when the exponent is negative; `None` past
/// twenty powers of ten either way, or on overflow.
pub open spec fn spec_pyth_number(price: int, expo: int) -> Option<int> {
    if expo >= 0 {
        if expo <= max_pyth_exponent() {
            omul(Some(price * scale()), checked(pow10(expo as nat) * scale()))
        } else {
            None
        }
    } else {
        if -expo <= max_pyth_exponent() {
            odiv(Some(price * scale()), checked(pow10((-expo) as nat) * scale()))
        } else {
            None
        }
    }
}

/// Converts a Pyth price to a number.
pub fn pyth_number(price: i64, expo: i32) -> (r: Option<Number>)
    ensures
        opt_view(r) == spec_pyth_number(price as int, expo as int),
{
    let atoms: i128 = (price as i128) * 1_000_000_000_000_000_000i128;
    let n = match Number::from_atoms(atoms) {
        Some(n) => n,
        None => return None,
    };
    if expo >= 0 {
        if expo > 20 {
            return None;
        }
        let p = match Number::from_u128(pow10_exec(expo as u32)) {
            Some(p) => p,
            None => return None,
        };
        n.checked_mul(&p)
    } else {
        if expo < -20 {
            return None;
        }
        let k: u32 = (0 - (expo as i64)) as u32;
        let p = match Number::from_u128(pow10_exec(k)) {
            Some(p) => p,
            None => return None,
        };
        n.checked_div(&p)
    }
}

/// A Stride redemption rate, as queried.
#[derive(Clone, Copy, Debug, PartialEq, Eq, Structural)]
pub struct StrideAnswer {
    pub redemption_rate: Number,
    /// Unix seconds.
    pub update_time: u64,
}

/// A simple oracle's price, as queried.
#[derive(Clone, Copy, Debug, PartialEq, Eq, Structural)]
pub struct SimpleAnswer {
    pub value: Number,
    /// Publish time in nanoseconds, when the oracle reports one.
    pub timestamp: Option<u64>,
    /// Time of the oracle's block, in nanoseconds.
    pub block_time: u64,
    pub volatile: bool,
}

/// What the oracles answered, by feed key.
#[derive(Debug)]
pub struct OracleAnswers {
    pub pyth: Vec<(String, PythPrice)>,
    pub stride: Vec<(String, StrideAnswer)>,
    pub simple: Vec<(String, SimpleAnswer)>,
}

/// Where a market's spot price comes from.
#[derive(Debug)]
pub enum SpotPriceConfig {
    /// Set by an admin.
    Manual { admin: Option<String> },
    /// Composed from oracle feeds.
    Oracle {
        /// The Pyth contract, if any.
        pyth: Option<String>,
        /// The Stride contract, if any.
        stride: Option<String>,
        feeds: Vec<SpotPriceFeed>,
        feeds_usd: Vec<SpotPriceFeed>,
        volatile_diff_seconds: Option<u32>,
    },
}

/// The checking context: which contracts are configured, whether ages are
/// checked and the current time (nanoseconds).
#[derive(Clone, Copy, Debug, PartialEq, Eq, Structural)]
pub struct GatherCtx {
    pub pyth_configured: bool,
    pub stride_configured: bool,
    pub validate_age: bool,
    pub now: u64,
}

/// A gathered price: value, publish time and volatility.
pub type FeedView = (int, u64, bool);

/// A gathered simple oracle price: value, publish time and volatility.
pub type SimpleView = (int, Option<u64>, bool);

/// The gathered prices, by key, in the order first needed.
#[verifier::ext_equal]
pub struct GatheredView {
    pub pyth: Seq<(Seq<char>, FeedView)>,
    pub stride: Seq<(Seq<char>, FeedView)>,
    pub simple: Seq<(Seq<char>, SimpleView)>,
}

pub open spec fn feed_view(r: OracleFeedResp) -> FeedView {
    (r.price@, r.publish_time, r.volatile)
}

pub open spec fn simple_view(r: SimpleOracleResp) -> SimpleView {
    (r.value@, r.timestamp, r.volatile)
}

pub open spec fn feeds_view(s: Seq<(String, OracleFeedResp)>) -> Seq<(Seq<char>, FeedView)> {
    s.map_values(|e: (String, OracleFeedResp)| (e.0@, feed_view(e.1)))
}

pub open spec fn simples_view(s: Seq<(String, SimpleOracleResp)>) -> Seq<(Seq<char>, SimpleView)> {
    s.map_values(|e: (String, SimpleOracleResp)| (e.0@, simple_view(e.1)))
}

/// The gathered prices of an oracle price set.
pub open spec fn gathered_view(o: OraclePriceInternal) -> GatheredView {
    GatheredView { pyth: feeds_view(o.pyth@), stride: feeds_view(o.stride@), simple: simples_view(o.simple@) }
}

/// Whether a key is among the gathered prices.
pub open spec fn present<V>(s: Seq<(Seq<char>, V)>, k: Seq<char>) -> bool {
    exists|i: int| 0 <= i < s.len() && s[i].0 == k
}

/// The current time in whole seconds.
pub open spec fn now_seconds(now: u64) -> int {
    now as int / NANOS_PER_SECOND as int
}

/// A Pyth price checked: not older than the tolerance when ages are
/// checked, published at a non-negative time, strictly positive.
pub open spec fn spec_pyth_entry(ctx: GatherCtx, p: PythPrice, age: u32, volatile: Option<bool>) -> Result<FeedView, OracleError> {
    if ctx.validate_age && abs(p.publish_time - now_seconds(ctx.now)) > age {
        Err(OracleError::PriceTooOld)
    } else if p.publish_time < 0 {
        Err(OracleError::NegativePublishTime)
    } else {
        match spec_pyth_number(p.price as int, p.expo as int) {
            None => Err(OracleError::Arithmetic),
            Some(v) => if v <= 0 {
                Err(OracleError::NonPositiveOraclePrice)
            } else if p.publish_time * NANOS_PER_SECOND > u64::MAX {
                Err(OracleError::Arithmetic)
            } else {
                Ok(
                    (
                        v,
                        (p.publish_time * NANOS_PER_SECOND) as u64,
                        match volatile {
                            Some(b) => b,
                            None => true,
                        },
                    ),
                )
            },
        }
    }
}

/// A Stride rate checked: not updated longer ago than the tolerance when
/// ages are checked, strictly positive.
pub open spec fn spec_stride_entry(ctx: GatherCtx, a: StrideAnswer, age: u32, volatile: Option<bool>) -> Result<FeedView, OracleError> {
    if ctx.validate_age && now_seconds(ctx.now) >= a.update_time && now_seconds(ctx.now) - a.update_time > age {
        Err(OracleError::PriceTooOld)
    } else if a.update_time * NANOS_PER_SECOND > u64::MAX {
        Err(OracleError::Arithmetic)
    } else if a.redemption_rate@ <= 0 {
        Err(OracleError::NonPositiveOraclePrice)
    } else {
        Ok(
            (
                a.redemption_rate@,
                (a.update_time * NANOS_PER_SECOND) as u64,
                match volatile {
                    Some(b) => b,
                    None => false,
                },
            ),
        )
    }
}

/// A simple oracle's price checked: published (or, without a publish time,
/// in a block) no later than now and no longer ago than the tolerance when
/// ages are checked, strictly positive.
pub open spec fn spec_simple_entry(ctx: GatherCtx, a: SimpleAnswer, age: u32) -> Result<SimpleView, OracleError> {
    let published = match a.timestamp {
        Some(t) => t,
        None => a.block_time,
    };
    if ctx.validate_age && ctx.now < published {
        Err(OracleError::PublishTimeInFuture)
    } else if ctx.validate_age && ctx.now - published > age * NANOS_PER_SECOND {
        Err(OracleError::PriceTooOld)
    } else if a.value@ <= 0 {
        Err(OracleError::NonPositiveOraclePrice)
    } else {
        Ok((a.value@, a.timestamp, a.volatile))
    }
}

/// One feed's step: its price is gathered and checked the first time its
/// key is met.
pub open spec fn spec_gather_step(ctx: GatherCtx, answers: OracleAnswers, s: GatheredView, feed: SpotPriceFeed) -> Result<GatheredView, OracleError> {
    match feed.data {
        SpotPriceFeedData::Pyth { id, age_tolerance_seconds } => if present(s.pyth, id@) {
            Ok(s)
        } else if !ctx.pyth_configured {
            Err(OracleError::PythConfigMissing)
        } else {
            let i = key_index(answers.pyth@, id@);
            if i < 0 {
                Err(OracleError::MissingOracleAnswer)
            } else {
                match spec_pyth_entry(ctx, answers.pyth@[i].1, age_tolerance_seconds, feed.volatile) {
                    Err(e) => Err(e),
                    Ok(v) => Ok(GatheredView { pyth: s.pyth.push((id@, v)), ..s }),
                }
            }
        },
        SpotPriceFeedData::Sei { .. } => Err(OracleError::SeiUnavailable),
        SpotPriceFeedData::Stride { denom, age_tolerance_seconds } => if present(s.stride, denom@) {
            Ok(s)
        } else if !ctx.stride_configured {
            Err(OracleError::StrideConfigMissing)
        } else {
            let i = key_index(answers.stride@, denom@);
            if i < 0 {
                Err(OracleError::MissingOracleAnswer)
            } else {
                match spec_stride_entry(ctx, answers.stride@[i].1, age_tolerance_seconds, feed.volatile) {
                    Err(e) => Err(e),
                    Ok(v) => Ok(GatheredView { stride: s.stride.push((denom@, v)), ..s }),
                }
            }
        },
        SpotPriceFeedData::Constant { .. } => Ok(s),
        SpotPriceFeedData::Simple { contract, age_tolerance_seconds } => if present(s.simple, contract@) {
            Ok(s)
        } else {
            let i = key_index(answers.simple@, contract@);
            if i < 0 {
                Err(OracleError::MissingOracleAnswer)
            } else {
                match spec_simple_entry(ctx, answers.simple@[i].1, age_tolerance_seconds) {
                    Err(e) => Err(e),
                    Ok(v) => Ok(GatheredView { simple: s.simple.push((contract@, v)), ..s }),
                }
            }
        },
    }
}

/// The prices gathered for the first `n` feeds, stopping at the first
/// failure.
pub open spec fn spec_gather(ctx: GatherCtx, answers: OracleAnswers, feeds: Seq<SpotPriceFeed>, n: int) -> Result<GatheredView, OracleError>
    decreases n,
{
    if n <= 0 {
        Ok(GatheredView { pyth: Seq::empty(), stride: Seq::empty(), simple: Seq::empty() })
    } else {
        match spec_gather(ctx, answers, feeds, n - 1) {
            Err(e) => Err(e),
            Ok(s) => spec_gather_step(ctx, answers, s, feeds[n - 1]),
        }
    }
}

/// Every gathered price is strictly positive, and no key is gathered twice.
pub open spec fn gathered_sound(v: GatheredView) -> bool {
    &&& forall|i: int| 0 <= i < v.pyth.len() ==> (#[trigger] v.pyth[i]).1.0 > 0
    &&& forall|i: int| 0 <= i < v.stride.len() ==> (#[trigger] v.stride[i]).1.0 > 0
    &&& forall|i: int| 0 <= i < v.simple.len() ==> (#[trigger] v.simple[i]).1.0 > 0
    &&& forall|i: int, j: int| 0 <= i < j < v.pyth.len() ==> v.pyth[i].0 != v.pyth[j].0
    &&& forall|i: int, j: int| 0 <= i < j < v.stride.len() ==> v.stride[i].0 != v.stride[j].0
    &&& forall|i: int, j: int| 0 <= i < j < v.simple.len() ==> v.simple[i].0 != v.simple[j].0
}

/// Whatever the feeds and answers, gathering yields strictly positive
/// prices, each key once.
pub proof fn lemma_gathered_sound(ctx: GatherCtx, answers: OracleAnswers, feeds: Seq<SpotPriceFeed>, n: int)
    requires
        spec_gather(ctx, answers, feeds, n) is Ok,
    ensures
        gathered_sound(spec_gather(ctx, answers, feeds, n)->Ok_0),
    decreases n,
{
    if n > 0 {
        lemma_gather_prefix_ok(ctx, answers, feeds, n);
        lemma_gathered_sound(ctx, answers, feeds, n - 1);
        let s = spec_gather(ctx, answers, feeds, n - 1)->Ok_0;
        let t = spec_gather(ctx, answers, feeds, n)->Ok_0;
        assert(t == spec_gather_step(ctx, answers, s, feeds[n - 1])->Ok_0);
        assert forall|i: int, j: int| 0 <= i < j < t.pyth.len() implies t.pyth[i].0 != t.pyth[j].0 by {
            if j == s.pyth.len() {
                assert(s.pyth[i] == t.pyth[i]);
            }
        }
        assert forall|i: int, j: int| 0 <= i < j < t.stride.len() implies t.stride[i].0 != t.stride[j].0 by {
            if j == s.stride.len() {
                assert(s.stride[i] == t.stride[i]);
            }
        }
        assert forall|i: int, j: int| 0 <= i < j < t.simple.len() implies t.simple[i].0 != t.simple[j].0 by {
            if j == s.simple.len() {
                assert(s.simple[i] == t.simple[i]);
            }
        }
    }
}

proof fn lemma_gather_prefix_ok(ctx: GatherCtx, answers: OracleAnswers, feeds: Seq<SpotPriceFeed>, n: int)
    requires
        n > 0,
        spec_gather(ctx, answers, feeds, n) is Ok,
    ensures
        spec_gather(ctx, answers, feeds, n - 1) is Ok,
{
}

proof fn lemma_gather_err_stays(ctx: GatherCtx, answers: OracleAnswers, feeds: Seq<SpotPriceFeed>, k: int, m: int)
    requires
        k <= m,
        spec_gather(ctx, answers, feeds, k) is Err,
    ensures
        spec_gather(ctx, answers, feeds, m) == spec_gather(ctx, answers, feeds, k),
    decreases m - k,
{
    if k < m {
        lemma_gather_err_stays(ctx, answers, feeds, k, m - 1);
    }
}

proof fn lemma_present_feeds(s: Seq<(String, OracleFeedResp)>, k: Seq<char>)
    ensures
        present(feeds_view(s), k) <==> key_index(s, k) >= 0,
{
    lemma_key_index(s, k);
    if key_index(s, k) >= 0 {
        let i = key_index(s, k);
        assert(feeds_view(s)[i].0 == k);
    } else {
        assert forall|i: int| 0 <= i < feeds_view(s).len() implies feeds_view(s)[i].0 != k by {
            assert(s[i].0@ != k);
        }
    }
}

proof fn lemma_present_simples(s: Seq<(String, SimpleOracleResp)>, k: Seq<char>)
    ensures
        present(simples_view(s), k) <==> key_index(s, k) >= 0,
{
    lemma_key_index(s, k);
    if key_index(s, k) >= 0 {
        let i = key_index(s, k);
        assert(simples_view(s)[i].0 == k);
    } else {
        assert forall|i: int| 0 <= i < simples_view(s).len() implies simples_view(s)[i].0 != k by {
            assert(s[i].0@ != k);
        }
    }
}

fn pyth_entry(ctx: &GatherCtx, p: PythPrice, age: u32, volatile: Option<bool>) -> (r: Result<OracleFeedResp, OracleError>)
    ensures
        match spec_pyth_entry(*ctx, p, age, volatile) {
            Ok(v) => r matches Ok(x) && feed_view(x) == v,
            Err(e) => r == Err::<OracleFeedResp, OracleError>(e),
        },
{
    if ctx.validate_age {
        let now_s: i64 = (ctx.now / NANOS_PER_SECOND) as i64;
        match p.publish_time.checked_sub(now_s) {
            Some(d) => {
                if d == i64::MIN {
                    return Err(OracleError::PriceTooOld);
                }
                if pyth_price_no_older_than(p, now_s, age as u64).is_none() {
                    return Err(OracleError::PriceTooOld);
                }
            },
            None => return Err(OracleError::PriceTooOld),
        }
    }
    if p.publish_time < 0 {
        return Err(OracleError::NegativePublishTime);
    }
    let price = match pyth_number(p.price, p.expo) {
        Some(v) => v,
        None => return Err(OracleError::Arithmetic),
    };
    if !price.is_strictly_positive() {
        return Err(OracleError::NonPositiveOraclePrice);
    }
    let publish_time = match (p.publish_time as u64).checked_mul(NANOS_PER_SECOND) {
        Some(t) => t,
        None => return Err(OracleError::Arithmetic),
    };
    let volatile = match volatile {
        Some(b) => b,
        None => true,
    };
    Ok(OracleFeedResp { price, publish_time, volatile })
}

fn stride_entry(ctx: &GatherCtx, a: StrideAnswer, age: u32, volatile: Option<bool>) -> (r: Result<OracleFeedResp, OracleError>)
    ensures
        match spec_stride_entry(*ctx, a, age, volatile) {
            Ok(v) => r matches Ok(x) && feed_view(x) == v,
            Err(e) => r == Err::<OracleFeedResp, OracleError>(e),
        },
{
    if ctx.validate_age {
        let now_s = ctx.now / NANOS_PER_SECOND;
        if now_s >= a.update_time && now_s - a.update_time > age as u64 {
            return Err(OracleError::PriceTooOld);
        }
    }
    let publish_time = match a.update_time.checked_mul(NANOS_PER_SECOND) {
        Some(t) => t,
        None => return Err(OracleError::Arithmetic),
    };
    if !a.redemption_rate.is_strictly_positive() {
        return Err(OracleError::NonPositiveOraclePrice);
    }
    let volatile = match volatile {
        Some(b) => b,
        None => false,
    };
    Ok(OracleFeedResp { price: a.redemption_rate, publish_time, volatile })
}

fn simple_entry(ctx: &GatherCtx, a: SimpleAnswer, age: u32) -> (r: Result<SimpleOracleResp, OracleError>)
    ensures
        match spec_simple_entry(*ctx, a, age) {
            Ok(v) => r matches Ok(x) && simple_view(x) == v,
            Err(e) => r == Err::<SimpleOracleResp, OracleError>(e),
        },
{
    let published = match a.timestamp {
        Some(t) => t,
        None => a.block_time,
    };
    if ctx.validate_age {
        if ctx.now < published {
            return Err(OracleError::PublishTimeInFuture);
        }
        if ctx.now - published > (age as u64) * NANOS_PER_SECOND {
            return Err(OracleError::PriceTooOld);
        }
    }
    if !a.value.is_strictly_positive() {
        return Err(OracleError::NonPositiveOraclePrice);
    }
    Ok(SimpleOracleResp { value: a.value, timestamp: a.timestamp, volatile: a.volatile })
}

fn gather_step(ctx: &GatherCtx, answers: &OracleAnswers, acc: &mut OraclePriceInternal, feed: &SpotPriceFeed) -> (r: Result<(), OracleError>)
    requires
        old(acc).sei@.len() == 0,
    ensures
        match spec_gather_step(*ctx, *answers, gathered_view(*old(acc)), *feed) {
            Ok(v) => r is Ok && gathered_view(*final(acc)) == v && final(acc).sei@.len() == 0,
            Err(e) => r == Err::<(), OracleError>(e),
        },
{
    match &feed.data {
        SpotPriceFeedData::Pyth { id, age_tolerance_seconds } => {
            proof {
                lemma_present_feeds(acc.pyth@, id@);
                lemma_key_index(answers.pyth@, id@);
            }
            if find(&acc.pyth, id).is_some() {
                return Ok(());
            }
            if !ctx.pyth_configured {
                return Err(OracleError::PythConfigMissing);
            }
            let i = match find(&answers.pyth, id) {
                Some(i) => i,
                None => return Err(OracleError::MissingOracleAnswer),
            };
            let entry = pyth_entry(ctx, answers.pyth[i].1, *age_tolerance_seconds, feed.volatile)?;
            let ghost before = acc.pyth@;
            acc.pyth.push((id.clone(), entry));
            proof {
                assert(feeds_view(acc.pyth@) =~= feeds_view(before).push((id@, feed_view(entry))));
            }
            Ok(())
        },
        SpotPriceFeedData::Sei { .. } => Err(OracleError::SeiUnavailable),
        SpotPriceFeedData::Stride { denom, age_tolerance_seconds } => {
            proof {
                lemma_present_feeds(acc.stride@, denom@);
                lemma_key_index(answers.stride@, denom@);
            }
            if find(&acc.stride, denom).is_some() {
                return Ok(());
            }
            if !ctx.stride_configured {
                return Err(OracleError::StrideConfigMissing);
            }
            let i = match find(&answers.stride, denom) {
                Some(i) => i,
                None => return Err(OracleError::MissingOracleAnswer),
            };
            let entry = stride_entry(ctx, answers.stride[i].1, *age_tolerance_seconds, feed.volatile)?;
            let ghost before = acc.stride@;
            acc.stride.push((denom.clone(), entry));
            proof {
                assert(feeds_view(acc.stride@) =~= feeds_view(before).push((denom@, feed_view(entry))));
            }
            Ok(())
        },
        SpotPriceFeedData::Constant { .. } => Ok(()),
        SpotPriceFeedData::Simple { contract, age_tolerance_seconds } => {
            proof {
                lemma_present_simples(acc.simple@, contract@);
                lemma_key_index(answers.simple@, contract@);
            }
            if find(&acc.simple, contract).is_some() {
                return Ok(());
            }
            let i = match find(&answers.simple, contract) {
                Some(i) => i,
                None => return Err(OracleError::MissingOracleAnswer),
            };
            let entry = simple_entry(ctx, answers.simple[i].1, *age_tolerance_seconds)?;
            let ghost before = acc.simple@;
            acc.simple.push((contract.clone(), entry));
            proof {
                assert(simples_view(acc.simple@) =~= simples_view(before).push((contract@, simple_view(entry))));
            }
            Ok(())
        },
    }
}

/// The context a spot price configuration and the current call give.
pub open spec fn spec_ctx(pyth: Option<String>, stride: Option<String>, validate_age: bool, now: u64) -> GatherCtx {
    GatherCtx { pyth_configured: pyth is Some, stride_configured: stride is Some, validate_age, now }
}

/// Gathers the oracle prices that a market's feeds (its base feeds, then
/// its USD feeds) need, from the oracles' answers: each key is looked up
/// once, the first time a feed needs it, and its price checked (ages only
/// when `validate_age`); the first failure is returned. A manually set
/// spot price has no oracle price.
#[verifier::loop_isolation(false)]
pub fn get_oracle_price(config: &SpotPriceConfig, validate_age: bool, now: u64, answers: &OracleAnswers) -> (r: Result<
    OraclePriceInternal,
    OracleError,
>)
    ensures
        match config {
            SpotPriceConfig::Manual { .. } => r == Err::<OraclePriceInternal, OracleError>(OracleError::ManualSpotPrice),
            SpotPriceConfig::Oracle { pyth, stride, feeds, feeds_usd, .. } => match spec_gather(
                spec_ctx(*pyth, *stride, validate_age, now),
                *answers,
                feeds@ + feeds_usd@,
                feeds@.len() as int + feeds_usd@.len(),
            ) {
                Ok(v) => r matches Ok(o) && gathered_view(o) == v && o.sei@.len() == 0,
                Err(e) => r == Err::<OraclePriceInternal, OracleError>(e),
            },
        },
{
    match config {
        SpotPriceConfig::Manual { .. } => Err(OracleError::ManualSpotPrice),
        SpotPriceConfig::Oracle { pyth, stride, feeds, feeds_usd, .. } => {
            let ctx = GatherCtx {
                pyth_configured: pyth.is_some(),
                stride_configured: stride.is_some(),
                validate_age,
                now,
            };
            let ghost all = feeds@ + feeds_usd@;
            let ghost total: int = feeds@.len() as int + feeds_usd@.len();
            let mut acc = OraclePriceInternal {
                pyth: Vec::new(),
                sei: Vec::new(),
                stride: Vec::new(),
                simple: Vec::new(),
            };
            proof {
                assert(gathered_view(acc) =~= GatheredView {
                    pyth: Seq::empty(),
                    stride: Seq::empty(),
                    simple: Seq::empty(),
                });
            }
            let mut i: usize = 0;
            while i < feeds.len()
                invariant
                    i <= feeds@.len(),
                    all == feeds@ + feeds_usd@,
                    ctx == spec_ctx(*pyth, *stride, validate_age, now),
                    acc.sei@.len() == 0,
                    spec_gather(ctx, *answers, all, i as int) == Ok::<GatheredView, OracleError>(gathered_view(acc)),
                decreases feeds@.len() - i,
            {
                assert(all[i as int] == feeds@[i as int]);
                match gather_step(&ctx, answers, &mut acc, &feeds[i]) {
                    Ok(()) => {},
                    Err(e) => {
                        proof {
                            lemma_gather_err_stays(ctx, *answers, all, i as int + 1, total);
                        }
                        return Err(e);
                    },
                }
                i += 1;
            }
            let mut j: usize = 0;
            while j < feeds_usd.len()
                invariant
                    j <= feeds_usd@.len(),
                    i == feeds@.len(),
                    all == feeds@ + feeds_usd@,
                    ctx == spec_ctx(*pyth, *stride, validate_age, now),
                    acc.sei@.len() == 0,
                    spec_gather(ctx, *answers, all, i + j as int) == Ok::<GatheredView, OracleError>(gathered_view(acc)),
                decreases feeds_usd@.len() - j,
            {
                assert(all[i + j as int] == feeds_usd@[j as int]);
                match gather_step(&ctx, answers, &mut acc, &feeds_usd[j]) {
                    Ok(()) => {},
                    Err(e) => {
                        proof {
                            lemma_gather_err_stays(ctx, *answers, all, i + j as int + 1, total);
                        }
                        return Err(e);
                    },
                }
                j += 1;
            }
            Ok(acc)
        },
    }
}

/// Gathering the feeds' prices never refuses them for volatility: that is
/// decided only once all the publish times are known.
pub proof fn lemma_gather_not_volatile(ctx: GatherCtx, answers: OracleAnswers, feeds: Seq<SpotPriceFeed>, n: int)
    ensures
        spec_gather(ctx, answers, feeds, n) matches Err(e) ==> !(e is VolatilePriceFeedTimeDelta),
    decreases n,
{
    if n > 0 {
        lemma_gather_not_volatile(ctx, answers, feeds, n - 1);
    }
}

} // verus!
