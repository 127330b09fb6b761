//! The series of spot prices that the crank works through, by strictly
//! increasing publish time.
use crate::error::PerpError;
use crate::gather::{
    gathered_view, get_oracle_price, lemma_gather_not_volatile, spec_ctx, spec_gather, OracleAnswers, SpotPriceConfig,
};
use crate::oracle::{spec_oldest_newest, OracleError, OraclePriceInternal, PriceStorage, NS_PER_SECOND};
use crate::price::{derive_price_usd, spec_derive_price_usd, MarketId};
use vstd::prelude::*;

verus! {

/// The spot prices stored, with their publish times.
pub struct SpotPrices {
    pub prices: Vec<(u64, PriceStorage)>,
}

/// Publish times strictly increase along the series.
pub open spec fn times_increasing(s: Seq<(u64, PriceStorage)>) -> bool {
    forall|i: int, j: int| 0 <= i < j < s.len() ==> s[i].0 < s[j].0
}

/// Whether a publish time comes after the bound (every time does when
/// there is none).
pub open spec fn after_bound(min: Option<u64>, t: u64) -> bool {
    match min {
        Some(m) => t > m,
        None => true,
    }
}

impl SpotPrices {
    pub open spec fn wf(&self) -> bool {
        times_increasing(self.prices@)
    }

    /// An empty series.
    pub fn new() -> (r: SpotPrices)
        ensures
            r.wf(),
            r.prices@.len() == 0,
    {
        SpotPrices { prices: Vec::new() }
    }

    /// Appends a price published at `publish_time`: a time not after the
    /// last one stored is skipped (`Ok(false)`); a price in USD that
    /// disagrees with the one the pair itself gives is refused; otherwise
    /// the price is stored (`Ok(true)`).
    pub fn append_spot_price(&mut self, publish_time: u64, price: PriceStorage, market_id: &MarketId) -> (r: Result<
        bool,
        PerpError,
    >)
        requires
            old(self).wf(),
            price.price_base@ > 0,
        ensures
            final(self).wf(),
            ({
                let s = old(self).prices@;
                if s.len() > 0 && s.last().0 >= publish_time {
                    r == Ok::<bool, PerpError>(false) && final(self).prices@ == s
                } else {
                    match spec_derive_price_usd(price.price_base@, market_id.base@, market_id.quote@, market_id.market_type) {
                        Some(None) => r == Err::<bool, PerpError>(PerpError::Arithmetic) && final(self).prices@ == s,
                        Some(Some(x)) => if x != price.price_usd@ {
                            r == Err::<bool, PerpError>(PerpError::ConflictingPriceUsd) && final(self).prices@ == s
                        } else {
                            r == Ok::<bool, PerpError>(true) && final(self).prices@ == s.push((publish_time, price))
                        },
                        None => r == Ok::<bool, PerpError>(true) && final(self).prices@ == s.push((publish_time, price)),
                    }
                }
            }),
    {
        let n = self.prices.len();
        if n > 0 && self.prices[n - 1].0 >= publish_time {
            return Ok(false);
        }
        match derive_price_usd(&price.price_base, market_id) {
            Some(Err(e)) => return Err(e),
            Some(Ok(x)) => {
                if !x.eq(&price.price_usd) {
                    return Err(PerpError::ConflictingPriceUsd);
                }
            },
            None => {},
        }
        let ghost before = self.prices@;
        self.prices.push((publish_time, price));
        proof {
            assert forall|i: int, j: int| 0 <= i < j < self.prices@.len() implies self.prices@[i].0 < self.prices@[j].0 by {
                if j == before.len() && i < before.len() - 1 {
                    assert(before[i].0 < before[before.len() - 1].0);
                }
            }
        }
        Ok(true)
    }

    /// The latest price stored at or before `time`, if any.
    pub fn spot_price_inner_opt(&self, time: u64) -> (r: Option<(u64, PriceStorage)>)
        requires
            self.wf(),
        ensures
            match r {
                None => forall|i: int| 0 <= i < self.prices@.len() ==> #[trigger] self.prices@[i].0 > time,
                Some(p) => exists|i: int|
                    0 <= i < self.prices@.len() && #[trigger] self.prices@[i] == p && p.0 <= time && (i + 1 == self.prices@.len()
                        || self.prices@[i + 1].0 > time),
            },
    {
        let mut found: Option<usize> = None;
        let mut i: usize = 0;
        while i < self.prices.len()
            invariant
                self.wf(),
                i <= self.prices@.len(),
                match found {
                    None => forall|k: int| 0 <= k < i ==> #[trigger] self.prices@[k].0 > time,
                    Some(f) => f < i && self.prices@[f as int].0 <= time && (f + 1 == i || self.prices@[f + 1].0 > time),
                },
                found is Some ==> forall|k: int| 0 <= k < i ==> #[trigger] self.prices@[k].0 > time || k <= found->0,
            decreases self.prices@.len() - i,
        {
            if self.prices[i].0 <= time {
                found = Some(i);
            }
            i += 1;
        }
        match found {
            None => None,
            Some(f) => {
                proof {
                    if f + 1 < self.prices@.len() {
                        assert(self.prices@[f + 1].0 > time);
                    }
                }
                Some(self.prices[f])
            },
        }
    }

    /// The earliest price stored after `min` (any, when there is no
    /// bound), if any: where the crank picks up.
    pub fn spot_price_after(&self, min: Option<u64>) -> (r: Option<(u64, PriceStorage)>)
        requires
            self.wf(),
        ensures
            match r {
                None => forall|i: int| 0 <= i < self.prices@.len() ==> !after_bound(min, #[trigger] self.prices@[i].0),
                Some(p) => exists|i: int|
                    0 <= i < self.prices@.len() && #[trigger] self.prices@[i] == p && after_bound(min, p.0) && forall|k: int|
                        0 <= k < i ==> !after_bound(min, #[trigger] self.prices@[k].0),
            },
    {
        let mut i: usize = 0;
        while i < self.prices.len()
            invariant
                i <= self.prices@.len(),
                forall|k: int| 0 <= k < i ==> !after_bound(min, #[trigger] self.prices@[k].0),
            decreases self.prices@.len() - i,
        {
            let t = self.prices[i].0;
            let after = match min {
                None => true,
                Some(m) => t > m,
            };
            if after {
                proof {
                    assert(after_bound(min, self.prices@[i as int].0));
                }
                return Some(self.prices[i]);
            }
            i += 1;
        }
        None
    }
}

/// Seconds within which oracle feeds must have been published together,
/// when the configuration does not say.
pub const DEFAULT_VOLATILE_DIFF_SECONDS: u32 = 5;

/// Nanoseconds within which the volatile feeds must have been published:
/// the configured seconds, or five when unset.
pub open spec fn volatile_allowance(volatile_diff_seconds: Option<u32>) -> int {
    match volatile_diff_seconds {
        Some(d) => d * NS_PER_SECOND,
        None => DEFAULT_VOLATILE_DIFF_SECONDS * NS_PER_SECOND,
    }
}

/// The price to append from the configured source: the manual price set
/// last, at the current time; or the oracle price composed from the
/// answers, at the oldest publish time of its feeds, which must all have
/// been published within the allowed difference.
pub fn spot_price_new_entry(
    config: &SpotPriceConfig,
    manual_price: Option<PriceStorage>,
    now: u64,
    answers: &OracleAnswers,
    market_id: &MarketId,
) -> (r: Result<(u64, PriceStorage), PerpError>)
    ensures
        config is Manual ==> r == (match manual_price {
            None => Err::<(u64, PriceStorage), PerpError>(PerpError::MissingSpotPrice),
            Some(p) => Ok::<(u64, PriceStorage), PerpError>((now, p)),
        }),
        config is Oracle ==> (r matches Ok((_, p)) ==> p.price_base@ > 0 && p.price_usd@ > 0 && p.block_time == Some(now)),
        // Refused for volatility only when the feeds' publish times spread
        // beyond the allowance.
        config matches SpotPriceConfig::Oracle { volatile_diff_seconds, .. } ==> (r matches Err(
            PerpError::Oracle { error: OracleError::VolatilePriceFeedTimeDelta { oldest, newest } },
        ) ==> newest - oldest > volatile_allowance(*volatile_diff_seconds)),
        // Otherwise keyed at the oldest publish time of the gathered feeds,
        // which spread within the allowance.
        config matches SpotPriceConfig::Oracle { pyth, stride, feeds, feeds_usd, volatile_diff_seconds } ==> (r matches Ok(
            (t, _),
        ) ==> exists|o: OraclePriceInternal|
            #![trigger gathered_view(o)]
            {
                &&& spec_gather(
                    spec_ctx(*pyth, *stride, true, now),
                    *answers,
                    feeds@ + feeds_usd@,
                    feeds@.len() as int + feeds_usd@.len(),
                ) == Ok::<_, OracleError>(gathered_view(o))
                &&& spec_oldest_newest(o) matches Some((oldest, newest))
                &&& t == oldest
                &&& newest - oldest <= volatile_allowance(*volatile_diff_seconds)
            }),
{
    match config {
        SpotPriceConfig::Manual { .. } => match manual_price {
            None => Err(PerpError::MissingSpotPrice),
            Some(p) => Ok((now, p)),
        },
        SpotPriceConfig::Oracle { pyth, stride, feeds, feeds_usd, volatile_diff_seconds } => {
            proof {
                lemma_gather_not_volatile(
                    spec_ctx(*pyth, *stride, true, now),
                    *answers,
                    feeds@ + feeds_usd@,
                    feeds@.len() as int + feeds_usd@.len(),
                );
            }
            let internal = match get_oracle_price(config, true, now, answers) {
                Ok(i) => i,
                Err(e) => return Err(PerpError::Oracle { error: e }),
            };
            let diff = match volatile_diff_seconds {
                Some(d) => *d,
                None => DEFAULT_VOLATILE_DIFF_SECONDS,
            };
            let publish_time = match internal.calculate_publish_time(diff) {
                Ok(Some(t)) => t,
                Ok(None) => return Err(PerpError::NoPricePublishTimeFound),
                Err(e) => return Err(PerpError::Oracle { error: e }),
            };
            match internal.compose_price(market_id.market_type, feeds, feeds_usd, now) {
                Ok(p) => {
                    proof {
                        assert(gathered_view(internal) == gathered_view(internal));
                    }
                    Ok((publish_time, p))
                },
                Err(e) => Err(PerpError::Oracle { error: e }),
            }
        },
    }
}

impl SpotPrices {
    /// Appends the price from the configured source (see
    /// [`spot_price_new_entry`] and [`SpotPrices::append_spot_price`]).
    pub fn spot_price_append(
        &mut self,
        config: &SpotPriceConfig,
        manual_price: Option<PriceStorage>,
        now: u64,
        answers: &OracleAnswers,
        market_id: &MarketId,
    ) -> (r: Result<bool, PerpError>)
        requires
            old(self).wf(),
            manual_price matches Some(p) ==> p.price_base@ > 0,
        ensures
            final(self).wf(),
            final(self).prices@ == old(self).prices@ || (r == Ok::<bool, PerpError>(true) && final(self).prices@.len()
                == old(self).prices@.len() + 1 && final(self).prices@.drop_last() == old(self).prices@),
            config is Manual && manual_price is None ==> r == Err::<bool, PerpError>(PerpError::MissingSpotPrice),
    {
        let (publish_time, price) = spot_price_new_entry(config, manual_price, now, answers, market_id)?;
        self.append_spot_price(publish_time, price, market_id)
    }
}

} // verus!
