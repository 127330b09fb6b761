//! Signed fixed-point decimal numbers with eighteen decimal places.
//!
//! A [`Number`] stores a sign and a 256-bit count of atoms, as two 128-bit
//! halves; its value is `atoms / 10^18`, and its magnitude is at most
//! `2^256 - 1` atoms, that of a 256-bit unsigned decimal. Multiplication and division
//! truncate toward zero, as the market's decimal arithmetic does, and every
//! fallible operation reports overflow (or a zero divisor) instead of
//! panicking.
use cosmwasm_std::{Decimal256, Uint256};
use vstd::prelude::*;

verus! {

/// Number of atoms in one unit.
pub const DECIMAL_FRACTIONAL: u128 = 1_000_000_000_000_000_000u128;

/// Atoms in one unit, as a mathematical integer.
pub open spec fn scale() -> int {
    1_000_000_000_000_000_000
}

/// The largest magnitude, in atoms, that a [`Number`] holds: that of a
/// 256-bit unsigned integer, `2^256 - 1`.
pub open spec fn max_atoms() -> int {
    115792089237316195423570985008687907853269984665640564039457584007913129639935int
}

/// `2^128`, the weight of a number's high half.
pub open spec fn word() -> int {
    0x1_0000_0000_0000_0000_0000_0000_0000_0000int
}

/// Whether an atom count can be held by a [`Number`].
pub open spec fn in_range(x: int) -> bool {
    -max_atoms() <= x <= max_atoms()
}

/// `Some(x)` when `x` is representable, `None` otherwise.
pub open spec fn checked(x: int) -> Option<int> {
    if in_range(x) {
        Some(x)
    } else {
        None
    }
}

pub open spec fn abs(x: int) -> int {
    if x < 0 {
        -x
    } else {
        x
    }
}

/// Product of two atom counts, truncated toward zero.
pub open spec fn trunc_mul(a: int, b: int) -> int {
    let m = abs(a) * abs(b) / scale();
    if (a < 0) == (b < 0) {
        m
    } else {
        -m
    }
}

/// Quotient of two atom counts, truncated toward zero (`b != 0`).
pub open spec fn trunc_div(a: int, b: int) -> int {
    let m = abs(a) * scale() / abs(b);
    if (a < 0) == (b < 0) {
        m
    } else {
        -m
    }
}

/// Checked addition over optional atom counts.
pub open spec fn oadd(a: Option<int>, b: Option<int>) -> Option<int> {
    match (a, b) {
        (Some(x), Some(y)) => checked(x + y),
        _ => None,
    }
}

/// Checked subtraction over optional atom counts.
pub open spec fn osub(a: Option<int>, b: Option<int>) -> Option<int> {
    match (a, b) {
        (Some(x), Some(y)) => checked(x - y),
        _ => None,
    }
}

/// Checked, truncating multiplication over optional atom counts.
pub open spec fn omul(a: Option<int>, b: Option<int>) -> Option<int> {
    match (a, b) {
        (Some(x), Some(y)) => checked(trunc_mul(x, y)),
        _ => None,
    }
}

/// Checked, truncating division over optional atom counts; a zero divisor gives `None`.
pub open spec fn odiv(a: Option<int>, b: Option<int>) -> Option<int> {
    match (a, b) {
        (Some(x), Some(y)) => if y == 0 {
            None
        } else {
            checked(trunc_div(x, y))
        },
        _ => None,
    }
}

pub open spec fn oneg(a: Option<int>) -> Option<int> {
    match a {
        Some(x) => Some(-x),
        None => None,
    }
}

pub open spec fn min_int(a: int, b: int) -> int {
    if a <= b {
        a
    } else {
        b
    }
}

pub open spec fn max_int(a: int, b: int) -> int {
    if a >= b {
        a
    } else {
        b
    }
}

pub open spec fn omin(a: Option<int>, b: Option<int>) -> Option<int> {
    match (a, b) {
        (Some(x), Some(y)) => Some(min_int(x, y)),
        _ => None,
    }
}

pub open spec fn omax(a: Option<int>, b: Option<int>) -> Option<int> {
    match (a, b) {
        (Some(x), Some(y)) => Some(max_int(x, y)),
        _ => None,
    }
}

/// A signed decimal with eighteen decimal places. A number that is not
/// negative holds `hi * 2^128 + lo` atoms; a negative one holds
/// `-(hi * 2^128 + lo) - 1`, so that every value has one representation.
#[derive(Clone, Copy, Debug, PartialEq, Eq, Structural)]
pub struct Number {
    neg: bool,
    hi: u128,
    lo: u128,
}

/// The atoms of a 256-bit count given by its halves.
pub open spec fn halves(hi: u128, lo: u128) -> int {
    hi * word() + lo
}

/// Multiplies two decimals, given by the halves of their atom counts, with
/// `cosmwasm_std::Decimal256::checked_mul`. Its source multiplies the atom
/// counts into a 512-bit integer, divides by `10^18` (flooring), and
/// reports overflow when the quotient does not fit in 256 bits. The claim:
/// the halves of that quotient, or `None` exactly when it does not fit.
#[verifier::external_body]
fn decimal256_checked_mul(a: (u128, u128), b: (u128, u128)) -> (r: Option<(u128, u128)>)
    ensures
        match r {
            Some((h, l)) => halves(h, l) == halves(a.0, a.1) * halves(b.0, b.1) / scale(),
            None => halves(a.0, a.1) * halves(b.0, b.1) / scale() > max_atoms(),
        },
{
    let x = Decimal256::new((Uint256::from(a.0) << 128u32) + Uint256::from(a.1));
    let y = Decimal256::new((Uint256::from(b.0) << 128u32) + Uint256::from(b.1));
    match x.checked_mul(y) {
        Ok(v) => {
            let bytes = v.atomics().to_be_bytes();
            Some((u128::from_be_bytes(bytes[..16].try_into().unwrap()), u128::from_be_bytes(bytes[16..].try_into().unwrap())))
        },
        Err(_) => None,
    }
}

/// Divides two decimals, given by the halves of their atom counts, with
/// `cosmwasm_std::Decimal256::checked_div`. Its source computes the
/// dividend's atoms times `10^18` over the divisor's atoms in a 512-bit
/// integer (flooring), and reports a zero divisor or a quotient that does
/// not fit in 256 bits. The claim: the halves of that quotient, or `None`
/// exactly when it does not fit.
#[verifier::external_body]
fn decimal256_checked_div(a: (u128, u128), b: (u128, u128)) -> (r: Option<(u128, u128)>)
    requires
        halves(b.0, b.1) != 0,
    ensures
        match r {
            Some((h, l)) => halves(h, l) == halves(a.0, a.1) * scale() / halves(b.0, b.1),
            None => halves(a.0, a.1) * scale() / halves(b.0, b.1) > max_atoms(),
        },
{
    let x = Decimal256::new((Uint256::from(a.0) << 128u32) + Uint256::from(a.1));
    let y = Decimal256::new((Uint256::from(b.0) << 128u32) + Uint256::from(b.1));
    match x.checked_div(y) {
        Ok(v) => {
            let bytes = v.atomics().to_be_bytes();
            Some((u128::from_be_bytes(bytes[..16].try_into().unwrap()), u128::from_be_bytes(bytes[16..].try_into().unwrap())))
        },
        Err(_) => None,
    }
}

/// What a `checked_multiply_ratio` call reports.
enum RatioOutcome {
    Value(u128),
    DivideByZero,
    Overflow,
}

/// Computes `value * numerator / (denominator as int)`, floored, with a 256-bit
/// intermediate product, by `cosmwasm_std::Uint128::checked_multiply_ratio`.
/// The claim: a zero denominator gives `DivideByZero`; otherwise the floored
/// quotient is returned when it fits in 128 bits and `Overflow` is reported
/// when it does not.
#[verifier::external_body]
fn uint128_multiply_ratio(value: u128, numerator: u128, denominator: u128) -> (r: RatioOutcome)
    ensures
        denominator == 0 ==> r is DivideByZero,
        denominator != 0 && value * numerator / (denominator as int) <= u128::MAX ==> r == RatioOutcome::Value(
            (value * numerator / (denominator as int)) as u128,
        ),
        denominator != 0 && value * numerator / (denominator as int) > u128::MAX ==> r is Overflow,
{
    match cosmwasm_std::Uint128::new(value).checked_multiply_ratio(numerator, denominator) {
        Ok(v) => RatioOutcome::Value(v.u128()),
        Err(cosmwasm_std::CheckedMultiplyRatioError::DivideByZero) => RatioOutcome::DivideByZero,
        Err(cosmwasm_std::CheckedMultiplyRatioError::Overflow) => RatioOutcome::Overflow,
    }
}

/// Floored `value * numerator / (denominator as int)` when it fits in 128 bits.
pub fn mul_ratio_u128(value: u128, numerator: u128, denominator: u128) -> (r: Option<u128>)
    ensures
        denominator == 0 ==> r is None,
        denominator != 0 ==> (r is Some <==> value * numerator / (denominator as int) <= u128::MAX),
        r matches Some(v) ==> v == value * numerator / (denominator as int),
{
    match uint128_multiply_ratio(value, numerator, denominator) {
        RatioOutcome::Value(v) => Some(v),
        RatioOutcome::DivideByZero => None,
        RatioOutcome::Overflow => None,
    }
}

/// The view of an optional number as an optional atom count.
pub open spec fn opt_view(o: Option<Number>) -> Option<int> {
    match o {
        Some(n) => Some(n@),
        None => None,
    }
}

impl View for Number {
    type V = int;

    closed spec fn view(&self) -> int {
        if self.neg {
            -halves(self.hi, self.lo) - 1
        } else {
            halves(self.hi, self.lo)
        }
    }
}

/// The number with the given atom count (meaningful for counts in range).
pub closed spec fn number_of(atoms: int) -> Number {
    if atoms < 0 {
        Number { neg: true, hi: ((-atoms - 1) / word()) as u128, lo: ((-atoms - 1) % word()) as u128 }
    } else {
        Number { neg: false, hi: (atoms / word()) as u128, lo: (atoms % word()) as u128 }
    }
}

/// The optional number with the given optional atom count.
pub open spec fn opt_number(o: Option<int>) -> Option<Number> {
    match o {
        Some(a) => Some(number_of(a)),
        None => None,
    }
}

/// A number is determined by its atom count.
pub broadcast proof fn lemma_number_of_view(x: Number)
    ensures
        #[trigger] number_of(x@) == x,
{
    vstd::arithmetic::div_mod::lemma_fundamental_div_mod_converse(
        halves(x.hi, x.lo),
        word(),
        x.hi as int,
        x.lo as int,
    );
}

/// An atom count in range is the count of the number made from it.
pub broadcast proof fn lemma_view_of_number(a: int)
    requires
        in_range(a),
    ensures
        #[trigger] number_of(a)@ == a,
{
    let s = if a < 0 {
        -a - 1
    } else {
        a
    };
    vstd::arithmetic::div_mod::lemma_fundamental_div_mod(s, word());
    vstd::arithmetic::div_mod::lemma_mod_bound(s, word());
    let q = s / word();
    assert(0 <= q < word()) by {
        assert(s == word() * q + s % word());
    }
}

/// An optional number is determined by its optional atom count.
pub broadcast proof fn lemma_opt_number_of_view(o: Option<Number>)
    ensures
        #[trigger] opt_number(opt_view(o)) == o,
{
    match o {
        Some(x) => {
            lemma_number_of_view(x);
        },
        None => {},
    }
}

/// An atom count is within one of the magnitude of a 256-bit count.
pub broadcast proof fn lemma_view_bounds(x: Number)
    ensures
        -max_atoms() - 1 <= #[trigger] x@ <= max_atoms(),
{
}

pub broadcast group group_number_of {
    lemma_number_of_view,
    lemma_view_of_number,
    lemma_opt_number_of_view,
    lemma_view_bounds,
}

/// Whether the first 256-bit count is less than the second.
fn halves_lt(ah: u128, al: u128, bh: u128, bl: u128) -> (r: bool)
    ensures
        r == (halves(ah, al) < halves(bh, bl)),
{
    ah < bh || (ah == bh && al < bl)
}

/// The sum of two 256-bit counts, when it fits in 256 bits.
fn halves_add(ah: u128, al: u128, bh: u128, bl: u128) -> (r: Option<(u128, u128)>)
    ensures
        match r {
            Some((h, l)) => halves(h, l) == halves(ah, al) + halves(bh, bl),
            None => halves(ah, al) + halves(bh, bl) > max_atoms(),
        },
{
    if al <= u128::MAX - bl {
        match ah.checked_add(bh) {
            Some(h) => Some((h, al + bl)),
            None => None,
        }
    } else {
        let l = al - (u128::MAX - bl) - 1;
        match ah.checked_add(bh) {
            Some(h) => match h.checked_add(1) {
                Some(h1) => Some((h1, l)),
                None => None,
            },
            None => None,
        }
    }
}

/// The difference of two 256-bit counts, the first not the smaller.
fn halves_sub(ah: u128, al: u128, bh: u128, bl: u128) -> (r: (u128, u128))
    requires
        halves(ah, al) >= halves(bh, bl),
    ensures
        halves(r.0, r.1) == halves(ah, al) - halves(bh, bl),
{
    if al >= bl {
        (ah - bh, al - bl)
    } else {
        (ah - bh - 1, (u128::MAX - bl) + al + 1)
    }
}

/// The number with the given sign and magnitude (a 256-bit count).
fn signed(neg: bool, h: u128, l: u128) -> (r: Number)
    ensures
        r@ == (if neg {
            -halves(h, l)
        } else {
            halves(h, l)
        }),
{
    if !neg || (h == 0 && l == 0) {
        Number { neg: false, hi: h, lo: l }
    } else if l == 0 {
        Number { neg: true, hi: h - 1, lo: u128::MAX }
    } else {
        Number { neg: true, hi: h, lo: l - 1 }
    }
}

impl Number {
    #[verifier::type_invariant]
    spec fn inv(self) -> bool {
        !(self.neg && self.hi == u128::MAX && self.lo == u128::MAX)
    }

    /// The magnitude's halves.
    fn magnitude(&self) -> (r: (u128, u128))
        ensures
            halves(r.0, r.1) == abs(self@),
    {
        proof {
            use_type_invariant(self);
        }
        if !self.neg {
            (self.hi, self.lo)
        } else if self.lo == u128::MAX {
            (self.hi + 1, 0)
        } else {
            (self.hi, self.lo + 1)
        }
    }

    /// Every number is within range (a fact for callers; no run-time effect).
    pub fn range_fact(&self)
        ensures
            in_range(self@),
    {
        proof {
            use_type_invariant(self);
        }
    }

    /// Zero.
    pub fn zero() -> (r: Number)
        ensures
            r@ == 0,
    {
        Number { neg: false, hi: 0, lo: 0 }
    }

    /// One.
    pub fn one() -> (r: Number)
        ensures
            r@ == scale(),
    {
        Number { neg: false, hi: 0, lo: DECIMAL_FRACTIONAL }
    }

    /// Two.
    pub fn two() -> (r: Number)
        ensures
            r@ == 2 * scale(),
    {
        Number { neg: false, hi: 0, lo: 2 * DECIMAL_FRACTIONAL }
    }

    /// Minus one.
    pub fn neg_one() -> (r: Number)
        ensures
            r@ == -scale(),
    {
        Number::one().neg()
    }

    /// The number with the given atom count; every 128-bit count is in
    /// range.
    pub fn from_atoms(atoms: i128) -> (r: Option<Number>)
        ensures
            opt_view(r) == checked(atoms as int),
            r is Some,
    {
        if atoms >= 0 {
            Some(Number { neg: false, hi: 0, lo: atoms as u128 })
        } else {
            Some(Number { neg: true, hi: 0, lo: (-(atoms + 1)) as u128 })
        }
    }

    /// The atom count, when a 128-bit signed integer holds it.
    pub fn to_atoms(&self) -> (r: Option<i128>)
        ensures
            match r {
                Some(a) => a == self@,
                None => !(i128::MIN <= self@ <= i128::MAX),
            },
    {
        if self.hi == 0 && self.lo <= 0x7fff_ffff_ffff_ffff_ffff_ffff_ffff_ffffu128 {
            if self.neg {
                Some(-(self.lo as i128) - 1)
            } else {
                Some(self.lo as i128)
            }
        } else {
            None
        }
    }

    /// The atom count of a number that is not negative, when a 128-bit
    /// unsigned integer holds it.
    pub fn to_unsigned_atoms(&self) -> (r: Option<u128>)
        ensures
            match r {
                Some(a) => a == self@,
                None => !(0 <= self@ <= u128::MAX),
            },
    {
        if !self.neg && self.hi == 0 {
            Some(self.lo)
        } else {
            None
        }
    }

    /// Whole units, of `per_unit` atoms each, in a number that is not
    /// negative (truncated), when a 128-bit unsigned integer holds them.
    pub fn units(&self, per_unit: u128) -> (r: Option<u128>)
        requires
            self@ >= 0,
            per_unit > 0,
            per_unit * scale() <= u128::MAX,
        ensures
            match r {
                Some(u) => u == self@ / (per_unit as int),
                None => self@ / (per_unit as int) > u128::MAX,
            },
    {
        proof {
            vstd::arithmetic::div_mod::lemma_div_multiples_vanish_quotient(scale(), self@, per_unit as int);
            vstd::arithmetic::div_mod::lemma_div_nonincreasing(self@, per_unit as int);
            vstd::arithmetic::div_mod::lemma_div_pos_is_pos(self@, per_unit as int);
            assert(self@ * scale() == scale() * self@);
            assert(per_unit * scale() == scale() * per_unit);
            use_type_invariant(self);
        }
        let d = Number { neg: false, hi: 0, lo: per_unit * DECIMAL_FRACTIONAL };
        match self.checked_div(&d) {
            Some(q) => q.to_unsigned_atoms(),
            None => None,
        }
    }

    /// The number with `a` atoms.
    pub fn from_unsigned_atoms(a: u128) -> (r: Number)
        ensures
            r@ == a,
    {
        Number { neg: false, hi: 0, lo: a }
    }

    /// The whole number `n`; every one is in range.
    pub fn from_u128(n: u128) -> (r: Option<Number>)
        ensures
            opt_view(r) == checked(n * scale()),
            r is Some,
    {
        proof {
            lemma_mul_whole(n as int, scale());
            assert(scale() * scale() == 1_000_000_000_000_000_000_000_000_000_000_000_000);
            assert(n * scale() <= u128::MAX * scale());
        }
        let x = Number { neg: false, hi: 0, lo: n };
        let m = Number { neg: false, hi: 0, lo: 1_000_000_000_000_000_000_000_000_000_000_000_000u128 };
        x.checked_mul(&m)
    }

    /// The whole number `n`; every `u64` is in range.
    pub fn from_u64(n: u64) -> (r: Number)
        ensures
            r@ == n * scale(),
    {
        Number { neg: false, hi: 0, lo: (n as u128) * DECIMAL_FRACTIONAL }
    }

    pub fn is_zero(&self) -> (r: bool)
        ensures
            r == (self@ == 0),
    {
        !self.neg && self.hi == 0 && self.lo == 0
    }

    pub fn is_negative(&self) -> (r: bool)
        ensures
            r == (self@ < 0),
    {
        self.neg
    }

    pub fn is_positive_or_zero(&self) -> (r: bool)
        ensures
            r == (self@ >= 0),
    {
        !self.neg
    }

    pub fn is_strictly_positive(&self) -> (r: bool)
        ensures
            r == (self@ > 0),
    {
        !self.neg && (self.hi > 0 || self.lo > 0)
    }

    pub fn lt(&self, other: &Number) -> (r: bool)
        ensures
            r == (self@ < other@),
    {
        if self.neg != other.neg {
            self.neg
        } else if self.neg {
            halves_lt(other.hi, other.lo, self.hi, self.lo)
        } else {
            halves_lt(self.hi, self.lo, other.hi, other.lo)
        }
    }

    pub fn le(&self, other: &Number) -> (r: bool)
        ensures
            r == (self@ <= other@),
    {
        !other.lt(self)
    }

    pub fn eq(&self, other: &Number) -> (r: bool)
        ensures
            r == (self@ == other@),
    {
        proof {
            lemma_number_of_view(*self);
            lemma_number_of_view(*other);
        }
        self.neg == other.neg && self.hi == other.hi && self.lo == other.lo
    }

    /// The negation; always in range.
    pub fn neg(&self) -> (r: Number)
        ensures
            r@ == -self@,
    {
        let (h, l) = self.magnitude();
        signed(!self.neg, h, l)
    }

    /// The absolute value; always in range.
    pub fn abs(&self) -> (r: Number)
        ensures
            r@ == abs(self@),
    {
        if self.is_negative() {
            self.neg()
        } else {
            *self
        }
    }

    pub fn min(&self, other: &Number) -> (r: Number)
        ensures
            r@ == min_int(self@, other@),
    {
        if self.le(other) {
            *self
        } else {
            *other
        }
    }

    pub fn max(&self, other: &Number) -> (r: Number)
        ensures
            r@ == max_int(self@, other@),
    {
        if other.le(self) {
            *self
        } else {
            *other
        }
    }

    pub fn checked_add(&self, other: &Number) -> (r: Option<Number>)
        ensures
            opt_view(r) == checked(self@ + other@),
    {
        let (ah, al) = self.magnitude();
        let (bh, bl) = other.magnitude();
        if self.neg == other.neg {
            match halves_add(ah, al, bh, bl) {
                Some((h, l)) => Some(signed(self.neg, h, l)),
                None => None,
            }
        } else if halves_lt(ah, al, bh, bl) {
            let (h, l) = halves_sub(bh, bl, ah, al);
            Some(signed(other.neg, h, l))
        } else {
            let (h, l) = halves_sub(ah, al, bh, bl);
            Some(signed(self.neg, h, l))
        }
    }

    pub fn checked_sub(&self, other: &Number) -> (r: Option<Number>)
        ensures
            opt_view(r) == checked(self@ - other@),
    {
        self.checked_add(&other.neg())
    }

    /// Product, truncated toward zero.
    pub fn checked_mul(&self, other: &Number) -> (r: Option<Number>)
        ensures
            opt_view(r) == checked(trunc_mul(self@, other@)),
    {
        let a = self.magnitude();
        let b = other.magnitude();
        match decimal256_checked_mul(a, b) {
            Some((h, l)) => Some(signed(self.neg != other.neg, h, l)),
            None => None,
        }
    }

    /// Quotient, truncated toward zero; `None` for a zero divisor.
    pub fn checked_div(&self, other: &Number) -> (r: Option<Number>)
        ensures
            opt_view(r) == (if other@ == 0 {
                None
            } else {
                checked(trunc_div(self@, other@))
            }),
    {
        if other.is_zero() {
            return None;
        }
        let a = self.magnitude();
        let b = other.magnitude();
        match decimal256_checked_div(a, b) {
            Some((h, l)) => Some(signed(self.neg != other.neg, h, l)),
            None => None,
        }
    }
}

/// Products and quotients of amounts that are not negative are not negative.
pub proof fn lemma_trunc_nonneg(a: int, b: int)
    requires
        a >= 0,
        b >= 0,
    ensures
        trunc_mul(a, b) >= 0,
        b > 0 ==> trunc_div(a, b) >= 0,
{
    assert(a * b >= 0) by (nonlinear_arith)
        requires
            a >= 0,
            b >= 0,
    ;
    if b > 0 {
        assert(a * scale() / b >= 0) by (nonlinear_arith)
            requires
                a >= 0,
                b > 0,
                scale() > 0,
        ;
    }
}

/// Multiplying by a whole number is exact.
pub proof fn lemma_mul_whole(v: int, e: int)
    requires
        e >= 0,
    ensures
        trunc_mul(v, e * scale()) == v * e,
{
    let a = abs(v);
    assert(a * (e * scale()) == (a * e) * scale()) by (nonlinear_arith);
    vstd::arithmetic::div_mod::lemma_div_multiples_vanish(a * e, scale());
    assert((a * e) * scale() == scale() * (a * e)) by (nonlinear_arith);
    if v < 0 {
        assert(-(a * e) == v * e) by (nonlinear_arith)
            requires
                a == -v,
        ;
    } else {
        assert(a * e >= 0) by (nonlinear_arith)
            requires
                a >= 0,
                e >= 0,
        ;
    }
}

/// A truncated product is within one atom of the exact product.
pub proof fn lemma_trunc_mul_close(a: int, b: int)
    ensures
        a * b - scale() < trunc_mul(a, b) * scale() < a * b + scale(),
{
    let p = abs(a) * abs(b);
    assert(p >= 0) by (nonlinear_arith)
        requires
            abs(a) >= 0,
            abs(b) >= 0,
            p == abs(a) * abs(b),
    ;
    vstd::arithmetic::div_mod::lemma_fundamental_div_mod(p, scale());
    vstd::arithmetic::div_mod::lemma_mod_bound(p, scale());
    let m = p / scale();
    assert(m * scale() == scale() * m) by (nonlinear_arith);
    if (a < 0) == (b < 0) {
        assert(a * b == p) by (nonlinear_arith)
            requires
                (a < 0) == (b < 0),
                p == abs(a) * abs(b),
                abs(a) == (if a < 0 { -a } else { a }),
                abs(b) == (if b < 0 { -b } else { b }),
        ;
    } else {
        assert(a * b == -p) by (nonlinear_arith)
            requires
                (a < 0) != (b < 0),
                p == abs(a) * abs(b),
                abs(a) == (if a < 0 { -a } else { a }),
                abs(b) == (if b < 0 { -b } else { b }),
        ;
        assert((-m) * scale() == -(m * scale())) by (nonlinear_arith);
    }
}

/// A truncated quotient by a positive divisor is within one divisor of the
/// exact quotient, scaled.
pub proof fn lemma_trunc_div_close(a: int, b: int)
    requires
        b > 0,
    ensures
        a * scale() - b < trunc_div(a, b) * b < a * scale() + b,
{
    let p = abs(a) * scale();
    assert(p >= 0) by (nonlinear_arith)
        requires
            abs(a) >= 0,
            p == abs(a) * scale(),
    ;
    vstd::arithmetic::div_mod::lemma_fundamental_div_mod(p, b);
    vstd::arithmetic::div_mod::lemma_mod_bound(p, b);
    let m = p / b;
    assert(m * b == b * m) by (nonlinear_arith);
    if a >= 0 {
        assert(p == a * scale());
    } else {
        assert(p == -(a * scale())) by (nonlinear_arith)
            requires
                a < 0,
                p == abs(a) * scale(),
                abs(a) == -a,
        ;
        assert((-m) * b == -(m * b)) by (nonlinear_arith);
    }
}

/// The sign of a truncated product or quotient follows the signs of its
/// operands.
pub proof fn lemma_trunc_signs(a: int, b: int)
    ensures
        (a >= 0 && b <= 0) || (a <= 0 && b >= 0) ==> trunc_mul(a, b) <= 0,
        (a >= 0 && b >= 0) || (a <= 0 && b <= 0) ==> trunc_mul(a, b) >= 0,
        b > 0 && a <= 0 ==> trunc_div(a, b) <= 0,
        b > 0 && a >= 0 ==> trunc_div(a, b) >= 0,
{
    let p = abs(a) * abs(b);
    assert(p >= 0) by (nonlinear_arith)
        requires
            abs(a) >= 0,
            abs(b) >= 0,
            p == abs(a) * abs(b),
    ;
    assert(a == 0 || b == 0 ==> p == 0) by (nonlinear_arith)
        requires
            p == abs(a) * abs(b),
            abs(a) == (if a < 0 { -a } else { a }),
            abs(b) == (if b < 0 { -b } else { b }),
    ;
    assert(p / scale() >= 0);
    let q = abs(a) * scale();
    assert(q >= 0) by (nonlinear_arith)
        requires
            abs(a) >= 0,
            q == abs(a) * scale(),
    ;
    assert(a == 0 ==> q == 0);
    if b != 0 {
        assert(q / abs(b) >= 0) by (nonlinear_arith)
            requires
                q >= 0,
                abs(b) > 0,
        ;
        assert(q == 0 ==> q / abs(b) == 0);
    }
}

/// A truncated product of amounts that are not negative grows with its
/// first factor.
pub proof fn lemma_trunc_mul_monotone(a1: int, a2: int, b: int)
    requires
        0 <= a1 <= a2,
        b >= 0,
    ensures
        trunc_mul(a1, b) <= trunc_mul(a2, b),
{
    assert(a1 * b <= a2 * b) by (nonlinear_arith)
        requires
            0 <= a1 <= a2,
            b >= 0,
    ;
    vstd::arithmetic::div_mod::lemma_div_is_ordered(a1 * b, a2 * b, scale());
}

} // verus!
