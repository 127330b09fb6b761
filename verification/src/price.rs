//! Prices, market types, directions and the conversions between
//! notional, collateral and USD amounts.
use crate::error::PerpError;
use crate::number::{checked, odiv, omul, opt_view, trunc_div, trunc_mul, Number, scale};
use vstd::prelude::*;

verus! {

/// Which asset of the pair is held as collateral.
#[derive(Clone, Copy, Debug, PartialEq, Eq, Structural)]
pub enum MarketType {
    /// The quote asset is the collateral; notional is the base asset.
    CollateralIsQuote,
    /// The base asset is the collateral; notional is the quote asset.
    CollateralIsBase,
}

/// Direction of a position relative to the notional asset.
#[derive(Clone, Copy, Debug, PartialEq, Eq, Structural)]
pub enum DirectionToNotional {
    Long,
    Short,
}

/// Direction of a position relative to the base asset.
#[derive(Clone, Copy, Debug, PartialEq, Eq, Structural)]
pub enum DirectionToBase {
    Long,
    Short,
}

pub open spec fn spec_into_base(dir: DirectionToNotional, market_type: MarketType) -> DirectionToBase {
    match (dir, market_type) {
        (DirectionToNotional::Long, MarketType::CollateralIsQuote) => DirectionToBase::Long,
        (DirectionToNotional::Short, MarketType::CollateralIsQuote) => DirectionToBase::Short,
        (DirectionToNotional::Long, MarketType::CollateralIsBase) => DirectionToBase::Short,
        (DirectionToNotional::Short, MarketType::CollateralIsBase) => DirectionToBase::Long,
    }
}

impl DirectionToNotional {
    /// The direction as the user sees it: in a collateral-is-base market,
    /// notional is the quote asset, so the direction flips.
    pub fn into_base(self, market_type: MarketType) -> (r: DirectionToBase)
        ensures
            r == spec_into_base(self, market_type),
    {
        match (self, market_type) {
            (DirectionToNotional::Long, MarketType::CollateralIsQuote) => DirectionToBase::Long,
            (DirectionToNotional::Short, MarketType::CollateralIsQuote) => DirectionToBase::Short,
            (DirectionToNotional::Long, MarketType::CollateralIsBase) => DirectionToBase::Short,
            (DirectionToNotional::Short, MarketType::CollateralIsBase) => DirectionToBase::Long,
        }
    }
}

/// Converting to base and back to notional is the identity.
pub proof fn lemma_into_base_injective(a: DirectionToNotional, b: DirectionToNotional, market_type: MarketType)
    ensures
        spec_into_base(a, market_type) == spec_into_base(b, market_type) <==> a == b,
{
}

/// A price and everything needed to convert amounts with it.
#[derive(Clone, Copy, Debug, PartialEq, Eq, Structural)]
pub struct PricePoint {
    /// Time of the price, in nanoseconds.
    pub timestamp: u64,
    /// Price of one notional unit in collateral (strictly positive).
    pub price_notional: Number,
    /// Price of one collateral unit in USD (strictly positive).
    pub price_usd: Number,
    /// Price of one base unit in quote, as received (strictly positive).
    pub price_base: Number,
    /// Whether the notional asset is USD itself.
    pub is_notional_usd: bool,
    pub market_type: MarketType,
}

impl PricePoint {
    /// Prices are strictly positive.
    pub open spec fn wf(&self) -> bool {
        self.price_notional@ > 0 && self.price_usd@ > 0 && self.price_base@ > 0
    }

    pub open spec fn spec_notional_to_collateral(&self, notional: int) -> Option<int> {
        checked(trunc_mul(notional, self.price_notional@))
    }

    pub open spec fn spec_collateral_to_notional(&self, collateral: int) -> Option<int> {
        checked(trunc_div(collateral, self.price_notional@))
    }

    pub open spec fn spec_collateral_to_usd(&self, collateral: int) -> Option<int> {
        checked(trunc_mul(collateral, self.price_usd@))
    }

    pub open spec fn spec_usd_to_collateral(&self, usd: int) -> Option<int> {
        checked(trunc_div(usd, self.price_usd@))
    }

    pub open spec fn spec_notional_to_usd(&self, notional: int) -> Option<int> {
        if self.is_notional_usd {
            Some(notional)
        } else {
            match self.spec_notional_to_collateral(notional) {
                Some(c) => self.spec_collateral_to_usd(c),
                None => None,
            }
        }
    }

    /// Collateral worth the given notional amount.
    pub fn notional_to_collateral(&self, notional: &Number) -> (r: Option<Number>)
        ensures
            opt_view(r) == self.spec_notional_to_collateral(notional@),
    {
        notional.checked_mul(&self.price_notional)
    }

    /// Notional worth the given collateral amount.
    pub fn collateral_to_notional(&self, collateral: &Number) -> (r: Option<Number>)
        requires
            self.wf(),
        ensures
            opt_view(r) == self.spec_collateral_to_notional(collateral@),
    {
        collateral.checked_div(&self.price_notional)
    }

    /// USD worth the given collateral amount.
    pub fn collateral_to_usd(&self, collateral: &Number) -> (r: Option<Number>)
        ensures
            opt_view(r) == self.spec_collateral_to_usd(collateral@),
    {
        collateral.checked_mul(&self.price_usd)
    }

    /// Collateral worth the given USD amount.
    pub fn usd_to_collateral(&self, usd: &Number) -> (r: Option<Number>)
        requires
            self.wf(),
        ensures
            opt_view(r) == self.spec_usd_to_collateral(usd@),
    {
        usd.checked_div(&self.price_usd)
    }

    /// USD worth the given notional amount.
    pub fn notional_to_usd(&self, notional: &Number) -> (r: Option<Number>)
        ensures
            opt_view(r) == self.spec_notional_to_usd(notional@),
    {
        if self.is_notional_usd {
            Some(*notional)
        } else {
            match self.notional_to_collateral(notional) {
                Some(c) => self.collateral_to_usd(&c),
                None => None,
            }
        }
    }
}

/// The notional price (collateral per notional) for a base-in-quote price.
pub open spec fn spec_into_notional_price(price_base: int, market_type: MarketType) -> Option<int> {
    match market_type {
        MarketType::CollateralIsQuote => Some(price_base),
        MarketType::CollateralIsBase => odiv(Some(scale()), Some(price_base)),
    }
}

/// Converts a base-in-quote price into a notional price: unchanged when the
/// quote is the collateral, inverted when the base is.
pub fn into_notional_price(price_base: &Number, market_type: MarketType) -> (r: Option<Number>)
    ensures
        opt_view(r) == spec_into_notional_price(price_base@, market_type),
{
    match market_type {
        MarketType::CollateralIsQuote => Some(*price_base),
        MarketType::CollateralIsBase => Number::one().checked_div(price_base),
    }
}

/// A market: its base and quote assets and which one is collateral.
#[derive(Clone, Debug, PartialEq, Eq)]
pub struct MarketId {
    pub base: String,
    pub quote: String,
    pub market_type: MarketType,
}

pub open spec fn usd() -> Seq<char> {
    seq!['U', 'S', 'D']
}

/// Whether a string reads exactly `USD`.
pub fn is_usd(s: &str) -> (r: bool)
    ensures
        r == (s@ == usd()),
{
    if s.unicode_len() != 3 {
        return false;
    }
    let r = s.get_char(0) == 'U' && s.get_char(1) == 'S' && s.get_char(2) == 'D';
    proof {
        if r {
            assert(s@ =~= usd());
        }
    }
    r
}

/// The price of collateral in USD derivable from the pair alone, if either
/// asset is USD.
pub open spec fn spec_derive_price_usd(price_base: int, base: Seq<char>, quote: Seq<char>, market_type: MarketType) -> Option<Option<int>> {
    if base == usd() {
        match market_type {
            MarketType::CollateralIsQuote => Some(odiv(Some(scale()), Some(price_base))),
            MarketType::CollateralIsBase => Some(Some(scale())),
        }
    } else if quote == usd() {
        match market_type {
            MarketType::CollateralIsQuote => Some(Some(scale())),
            MarketType::CollateralIsBase => Some(Some(price_base)),
        }
    } else {
        None
    }
}

/// Derives the price of collateral in USD when the base or quote asset is
/// USD: one when the collateral is USD, the base price when the quote is
/// USD and the base is collateral, and its inverse when the base is USD and
/// the quote is collateral. `None` when neither asset is USD; `Some(Err)`
/// when the inverse overflows.
pub fn derive_price_usd(price_base: &Number, market_id: &MarketId) -> (r: Option<Result<Number, PerpError>>)
    requires
        price_base@ > 0,
    ensures
        match (r, spec_derive_price_usd(price_base@, market_id.base@, market_id.quote@, market_id.market_type)) {
            (None, None) => true,
            (Some(Ok(v)), Some(Some(x))) => v@ == x,
            (Some(Err(e)), Some(None)) => e == PerpError::Arithmetic,
            _ => false,
        },
{
    if is_usd(market_id.base.as_str()) {
        Some(
            match market_id.market_type {
                MarketType::CollateralIsQuote => match Number::one().checked_div(price_base) {
                    Some(v) => Ok(v),
                    None => Err(PerpError::Arithmetic),
                },
                MarketType::CollateralIsBase => Ok(Number::one()),
            },
        )
    } else if is_usd(market_id.quote.as_str()) {
        Some(
            match market_id.market_type {
                MarketType::CollateralIsQuote => Ok(Number::one()),
                MarketType::CollateralIsBase => Ok(*price_base),
            },
        )
    } else {
        None
    }
}

/// Chooses the price of collateral in USD from the derived price and the
/// provided one: either one alone is used, both must agree, and at least
/// one must exist.
pub fn get_price_usd(price_base: &Number, price_usd: Option<Number>, market_id: &MarketId) -> (r: Result<Number, PerpError>)
    requires
        price_base@ > 0,
    ensures
        match spec_derive_price_usd(price_base@, market_id.base@, market_id.quote@, market_id.market_type) {
            None => match price_usd {
                None => r == Err::<Number, PerpError>(PerpError::MissingPriceUsd),
                Some(p) => r == Ok::<Number, PerpError>(p),
            },
            Some(None) => r == Err::<Number, PerpError>(PerpError::Arithmetic),
            Some(Some(x)) => match price_usd {
                None => r matches Ok(v) && v@ == x,
                Some(p) => if p@ == x {
                    r == Ok::<Number, PerpError>(p)
                } else {
                    r == Err::<Number, PerpError>(PerpError::ConflictingPriceUsd)
                },
            },
        },
{
    match (derive_price_usd(price_base, market_id), price_usd) {
        (None, None) => Err(PerpError::MissingPriceUsd),
        (None, Some(p)) => Ok(p),
        (Some(Err(e)), _) => Err(e),
        (Some(Ok(x)), None) => Ok(x),
        (Some(Ok(x)), Some(y)) => {
            if x.eq(&y) {
                Ok(y)
            } else {
                Err(PerpError::ConflictingPriceUsd)
            }
        },
    }
}

} // verus!
