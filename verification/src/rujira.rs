//! Chain asset symbols, and the messages and results of the chain's
//! network and oracle price queries.
use crate::number::{checked, Number};
use vstd::prelude::*;

verus! {

/// The symbol part of a chain asset name: what follows the first `.`, or
/// the whole input when there is none.
pub open spec fn spec_chain_symbol(input: Seq<char>) -> Seq<char> {
    if exists|i: int| 0 <= i < input.len() && input[i] == '.' {
        let i = choose|i: int| 0 <= i < input.len() && input[i] == '.' && forall|j: int| 0 <= j < i ==> input[j] != '.';
        input.subrange(i + 1, input.len() as int)
    } else {
        input
    }
}

/// A chain asset symbol, borrowed from the name it was parsed from.
pub struct ChainSymbol<'a>(pub &'a str);

impl<'a> ChainSymbol<'a> {
    pub open spec fn spec_symbol(&self) -> Seq<char> {
        self.0@
    }

    /// Takes what follows the first `.` of the input, or all of it.
    pub fn parse(input: &'a str) -> (r: ChainSymbol<'a>)
        ensures
            r.spec_symbol() == spec_chain_symbol(input@),
    {
        let n = input.unicode_len();
        let mut i: usize = 0;
        while i < n
            invariant
                n == input@.len(),
                i <= n,
                forall|j: int| 0 <= j < i ==> input@[j] != '.',
            decreases n - i,
        {
            if input.get_char(i) == '.' {
                let symbol = input.substring_char(i + 1, n);
                proof {
                    let s = input@;
                    assert(exists|k: int| 0 <= k < s.len() && s[k] == '.');
                    let c = choose|k: int| 0 <= k < s.len() && s[k] == '.' && forall|j: int| 0 <= j < k ==> s[j] != '.';
                    assert(0 <= i && s[i as int] == '.' && forall|j: int| 0 <= j < i ==> s[j] != '.');
                    if c < i {
                        assert(s[c] != '.');
                    }
                    if c > i {
                        assert(s[i as int] != '.');
                    }
                    assert(c == i);
                }
                return ChainSymbol(symbol);
            }
            i += 1;
        }
        ChainSymbol(input)
    }

    /// The parsed symbol.
    pub fn symbol(&self) -> (r: &'a str)
        ensures
            r@ == self.spec_symbol(),
    {
        self.0
    }
}

/// A network query, at a height.
#[derive(Clone, Debug, PartialEq, Eq)]
pub struct QueryNetworkRequest {
    pub height: String,
}

/// The part of a network query's response that the market reads.
#[derive(Clone, Debug, PartialEq, Eq)]
pub struct QueryNetworkResponse {
    /// RUNE price in TOR, as a decimal string with eight implied decimals.
    pub rune_price_in_tor: String,
}

/// An oracle price query for a symbol, at a height.
#[derive(Clone, Debug, PartialEq, Eq)]
pub struct QueryOraclePriceRequest {
    pub height: String,
    pub symbol: String,
}

/// An oracle price, as a decimal string with eight implied decimals.
#[derive(Clone, Debug, PartialEq, Eq)]
pub struct OraclePrice {
    pub price: String,
}

/// An oracle price query's response.
#[derive(Clone, Debug, PartialEq, Eq)]
pub struct QueryOraclePriceResponse {
    pub price: Option<OraclePrice>,
}

/// The network values the market uses.
#[derive(Clone, Copy, Debug, PartialEq, Eq, Structural)]
pub struct Network {
    pub rune_price_in_tor: Number,
}

/// An oracle price enshrined in the chain.
#[derive(Clone, Copy, Debug, PartialEq, Eq, Structural)]
pub struct EnshrinedPrice {
    pub price: Number,
}

/// Why a chain query's response was refused.
#[derive(Clone, Copy, Debug, PartialEq, Eq, Structural)]
pub enum QueryResponseError {
    /// The response holds no price.
    NoPrice,
    /// The price is not a decimal number.
    InvalidDecimal,
}

/// Atoms (eighteen decimals) of the decimal that `cosmwasm_std::Decimal`
/// parses from a string, or `None` when it refuses it.
pub uninterp spec fn decimal_from_str(s: Seq<char>) -> Option<u128>;

/// Parses a decimal string by `cosmwasm_std::Decimal::from_str` and returns
/// its atoms. The claim: the result is what that parser gives for these
/// characters, and nothing else.
#[verifier::external_body]
fn parse_decimal_atoms(s: &str) -> (r: Option<u128>)
    ensures
        r == decimal_from_str(s@),
{
    match <cosmwasm_std::Decimal as core::str::FromStr>::from_str(s) {
        Ok(d) => Some(d.atomics().u128()),
        Err(_) => None,
    }
}

/// Ten to the eighth: the chain's prices carry eight implied decimals.
pub const CHAIN_PRICE_DIVISOR: u128 = 100_000_000u128;

/// A chain price from the atoms of its parsed decimal string: the decimal
/// divided by ten to the eighth.
pub fn chain_price_from_atoms(atoms: u128) -> (r: Number)
    ensures
        r@ == (atoms as int) / (CHAIN_PRICE_DIVISOR as int),
{
    let scaled = atoms / CHAIN_PRICE_DIVISOR;
    Number::from_atoms(scaled as i128).unwrap()
}

impl Network {
    /// Reads the network values from a response: the RUNE price is the
    /// parsed decimal divided by ten to the eighth.
    pub fn try_from_response(value: &QueryNetworkResponse) -> (r: Result<Network, QueryResponseError>)
        ensures
            match decimal_from_str(value.rune_price_in_tor@) {
                None => r == Err::<Network, QueryResponseError>(QueryResponseError::InvalidDecimal),
                Some(a) => r matches Ok(n) && n.rune_price_in_tor@ == (a as int) / (CHAIN_PRICE_DIVISOR as int),
            },
    {
        match parse_decimal_atoms(value.rune_price_in_tor.as_str()) {
            Some(a) => Ok(Network { rune_price_in_tor: chain_price_from_atoms(a) }),
            None => Err(QueryResponseError::InvalidDecimal),
        }
    }
}

impl EnshrinedPrice {
    /// Reads an enshrined price from a response: there must be a price, and
    /// it is the parsed decimal divided by ten to the eighth.
    pub fn try_from_response(value: &QueryOraclePriceResponse) -> (r: Result<EnshrinedPrice, QueryResponseError>)
        ensures
            match &value.price {
                None => r == Err::<EnshrinedPrice, QueryResponseError>(QueryResponseError::NoPrice),
                Some(p) => match decimal_from_str(p.price@) {
                    None => r == Err::<EnshrinedPrice, QueryResponseError>(QueryResponseError::InvalidDecimal),
                    Some(a) => r matches Ok(e) && e.price@ == (a as int) / (CHAIN_PRICE_DIVISOR as int),
                },
            },
    {
        match &value.price {
            None => Err(QueryResponseError::NoPrice),
            Some(p) => match parse_decimal_atoms(p.price.as_str()) {
                Some(a) => Ok(EnshrinedPrice { price: chain_price_from_atoms(a) }),
                None => Err(QueryResponseError::InvalidDecimal),
            },
        }
    }
}

/// The network query the market makes: at the latest height.
pub fn network_request() -> (r: QueryNetworkRequest)
    ensures
        r.height@ == seq!['0'],
{
    let height = String::from_str("0");
    proof {
        reveal_strlit("0");
    }
    QueryNetworkRequest { height }
}

/// The oracle price query the market makes for a symbol: at the latest
/// height.
pub fn oracle_price_request(symbol: String) -> (r: QueryOraclePriceRequest)
    ensures
        r.height@ == seq!['0'],
        r.symbol == symbol,
{
    let height = String::from_str("0");
    proof {
        reveal_strlit("0");
    }
    QueryOraclePriceRequest { height, symbol }
}

} // verus!
