//! Unsigned fixed-point numbers with 18 fractional digits.
//!
//! A `Decimal` is its count of atomic units: the value `x` is held as
//! `x * 10^18`. Addition, subtraction, rounding and comparison are plain
//! integer operations on the atomics and are written here. Multiplication,
//! division, ratios and parsing go through `cosmwasm_std::Decimal`, whose
//! results are stated below over the atomics.
use vstd::prelude::*;

verus! {

/// Number of atomic units in one whole unit (10^18).
pub const DECIMAL_FRACTIONAL: u128 = 1_000_000_000_000_000_000u128;

/// The unit as a mathematical integer.
pub open spec fn unit() -> int {
    1_000_000_000_000_000_000int
}

/// The atomics of `a * b`: the exact product, divided by the unit, rounded down.
pub open spec fn mul_atomics(a: int, b: int) -> int {
    (a * b) / unit()
}

/// The atomics of `a / b`: `a * unit / b`, rounded down.
pub open spec fn div_atomics(a: int, b: int) -> int {
    (a * unit()) / b
}

/// `a / b` fits in the atomics range and `b` is non-zero.
pub open spec fn div_fits(a: int, b: int) -> bool {
    b != 0 && div_atomics(a, b) <= u128::MAX
}

/// A name for what `cosmwasm_std::Decimal::from_str` yields on a string: the
/// atomics of the parsed value, or `None` where the text is refused.
pub uninterp spec fn decimal_parse(s: Seq<char>) -> Option<u128>;

/// A non-negative fixed-point number with 18 decimal places.
#[derive(Clone, Copy, Debug, PartialEq, Eq, Structural)]
pub struct Decimal {
    /// The value times 10^18.
    pub atomics: u128,
}

/// Error returned when a decimal would leave the range of its atomics.
#[derive(Clone, Copy, Debug, PartialEq, Eq, Structural)]
pub struct DecimalRangeExceeded;

/// `cosmwasm_std::Decimal::checked_mul` on the given atomics: the product,
/// rounded down to 18 places, or `None` where it leaves the `u128` range.
#[verifier::external_body]
fn checked_mul_atomics(a: u128, b: u128) -> (r: Option<u128>)
    ensures
        mul_atomics(a as int, b as int) <= u128::MAX ==> r == Some(
            mul_atomics(a as int, b as int) as u128,
        ),
        mul_atomics(a as int, b as int) > u128::MAX ==> r is None,
{
    cosmwasm_std::Decimal::raw(a).checked_mul(cosmwasm_std::Decimal::raw(b)).ok().map(
        |d| d.atomics().u128(),
    )
}

/// `cosmwasm_std::Decimal::checked_div` on the given atomics: `a * 10^18 / b`
/// rounded down, or `None` where `b` is zero or the quotient leaves the range.
#[verifier::external_body]
fn checked_div_atomics(a: u128, b: u128) -> (r: Option<u128>)
    ensures
        div_fits(a as int, b as int) ==> r == Some(div_atomics(a as int, b as int) as u128),
        !div_fits(a as int, b as int) ==> r is None,
{
    cosmwasm_std::Decimal::raw(a).checked_div(cosmwasm_std::Decimal::raw(b)).ok().map(
        |d| d.atomics().u128(),
    )
}

/// `cosmwasm_std::Decimal::checked_from_ratio`: `n * 10^18 / d` rounded down,
/// or `None` where `d` is zero or the ratio leaves the range.
#[verifier::external_body]
fn checked_from_ratio_atomics(n: u128, d: u128) -> (r: Option<u128>)
    ensures
        div_fits(n as int, d as int) ==> r == Some(div_atomics(n as int, d as int) as u128),
        !div_fits(n as int, d as int) ==> r is None,
{
    cosmwasm_std::Decimal::checked_from_ratio(n, d).ok().map(|x| x.atomics().u128())
}

/// `cosmwasm_std::Decimal::from_str`: the atomics of the parsed decimal. What
/// the parser accepts is not restated here; the result is named by `decimal_parse`.
#[verifier::external_body]
fn parse_atomics(s: &str) -> (r: Option<u128>)
    ensures
        r == decimal_parse(s@),
{
    <cosmwasm_std::Decimal as std::str::FromStr>::from_str(s).ok().map(|d| d.atomics().u128())
}


/// Scaling both sides of a quotient by the unit leaves it unchanged.
pub proof fn lemma_unit_cancels(a: int, b: int)
    requires
        a >= 0,
        b > 0,
    ensures
        (a * unit()) / (b * unit()) == a / b,
{
    assert((a * unit()) / unit() == a) by {
        vstd::arithmetic::div_mod::lemma_div_by_multiple(a, unit());
    }
    vstd::arithmetic::div_mod::lemma_div_denominator(a * unit(), unit(), b);
    assert(unit() * b == b * unit()) by {
        vstd::arithmetic::mul::lemma_mul_is_commutative(unit(), b);
    }
}

/// Multiplying by a whole number `k` (atomics `k * unit`) is exact.
pub proof fn lemma_mul_whole(a: int, k: int)
    requires
        a >= 0,
        k >= 0,
    ensures
        mul_atomics(a, k * unit()) == a * k,
        mul_atomics(k * unit(), a) == a * k,
{
    assert(a * (k * unit()) == (a * k) * unit()) by {
        vstd::arithmetic::mul::lemma_mul_is_associative(a, k, unit());
    }
    assert((k * unit()) * a == (a * k) * unit()) by (nonlinear_arith);
    assert(a * k >= 0) by (nonlinear_arith)
        requires
            a >= 0,
            k >= 0,
    ;
    vstd::arithmetic::div_mod::lemma_div_by_multiple(a * k, unit());
}

/// Any `u64` whole number fits the atomics.
pub proof fn lemma_u64_whole_fits(x: u64)
    ensures
        x as int * unit() <= u128::MAX,
{
    assert(x as int * unit() <= u64::MAX as int * unit()) by (nonlinear_arith)
        requires
            x <= u64::MAX,
    ;
}

/// Dividing by the unit and multiplying back never goes above the start.
pub proof fn lemma_floor_le(x: int, d: int)
    requires
        x >= 0,
        d > 0,
    ensures
        (x / d) * d <= x,
        x - (x / d) * d < d,
        x / d >= 0,
{
    vstd::arithmetic::div_mod::lemma_fundamental_div_mod(x, d);
    vstd::arithmetic::div_mod::lemma_mod_bound(x, d);
    vstd::arithmetic::div_mod::lemma_div_pos_is_pos(x, d);
    assert(d * (x / d) == (x / d) * d) by {
        vstd::arithmetic::mul::lemma_mul_is_commutative(d, x / d);
    }
}

impl Decimal {
    /// Builds a decimal from its atomics.
    pub fn raw(atomics: u128) -> (r: Decimal)
        ensures
            r.atomics == atomics,
    {
        Decimal { atomics }
    }

    pub fn zero() -> (r: Decimal)
        ensures
            r.atomics == 0,
    {
        Decimal { atomics: 0 }
    }

    pub fn one() -> (r: Decimal)
        ensures
            r.atomics == unit(),
    {
        Decimal { atomics: DECIMAL_FRACTIONAL }
    }

    /// `x` basis points, i.e. `x / 10000`.
    pub fn bps(x: u64) -> (r: Decimal)
        ensures
            r.atomics == x as int * 100_000_000_000_000int,
    {
        assert(x as int * 100_000_000_000_000int <= u128::MAX) by (nonlinear_arith)
            requires
                x <= u64::MAX,
        ;
        Decimal { atomics: (x as u128) * 100_000_000_000_000u128 }
    }

    /// The whole number `x` as a decimal, or an error where `x * 10^18` leaves the range.
    pub fn from_uint(x: u128) -> (r: Result<Decimal, DecimalRangeExceeded>)
        ensures
            x as int * unit() <= u128::MAX ==> r == Ok::<Decimal, DecimalRangeExceeded>(
                Decimal { atomics: (x as int * unit()) as u128 },
            ),
            x as int * unit() > u128::MAX ==> r is Err,
    {
        match x.checked_mul(DECIMAL_FRACTIONAL) {
            Some(a) => Ok(Decimal { atomics: a }),
            None => Err(DecimalRangeExceeded),
        }
    }

    /// `numerator / denominator`, or `None` where the denominator is zero or the
    /// ratio leaves the range.
    pub fn checked_from_ratio(numerator: u128, denominator: u128) -> (r: Option<Decimal>)
        ensures
            div_fits(numerator as int, denominator as int) ==> r == Some(
                Decimal { atomics: div_atomics(numerator as int, denominator as int) as u128 },
            ),
            !div_fits(numerator as int, denominator as int) ==> r is None,
    {
        match checked_from_ratio_atomics(numerator, denominator) {
            Some(a) => Some(Decimal { atomics: a }),
            None => None,
        }
    }

    pub fn is_zero(&self) -> (r: bool)
        ensures
            r == (self.atomics == 0),
    {
        self.atomics == 0
    }

    /// `self + other`; the sum must fit.
    pub fn add(self, other: Decimal) -> (r: Decimal)
        requires
            self.atomics + other.atomics <= u128::MAX,
        ensures
            r.atomics == self.atomics + other.atomics,
    {
        Decimal { atomics: self.atomics + other.atomics }
    }

    pub fn checked_add(self, other: Decimal) -> (r: Option<Decimal>)
        ensures
            self.atomics + other.atomics <= u128::MAX ==> r == Some(
                Decimal { atomics: (self.atomics + other.atomics) as u128 },
            ),
            self.atomics + other.atomics > u128::MAX ==> r is None,
    {
        match self.atomics.checked_add(other.atomics) {
            Some(a) => Some(Decimal { atomics: a }),
            None => None,
        }
    }

    /// `self - other`; `other` must not exceed `self`.
    pub fn sub(self, other: Decimal) -> (r: Decimal)
        requires
            other.atomics <= self.atomics,
        ensures
            r.atomics == self.atomics - other.atomics,
    {
        Decimal { atomics: self.atomics - other.atomics }
    }

    pub fn checked_sub(self, other: Decimal) -> (r: Option<Decimal>)
        ensures
            other.atomics <= self.atomics ==> r == Some(
                Decimal { atomics: (self.atomics - other.atomics) as u128 },
            ),
            other.atomics > self.atomics ==> r is None,
    {
        if other.atomics <= self.atomics {
            Some(Decimal { atomics: self.atomics - other.atomics })
        } else {
            None
        }
    }

    /// `self * other`, rounded down to 18 places; the product must fit.
    pub fn mul(self, other: Decimal) -> (r: Decimal)
        requires
            mul_atomics(self.atomics as int, other.atomics as int) <= u128::MAX,
        ensures
            r.atomics == mul_atomics(self.atomics as int, other.atomics as int),
    {
        match checked_mul_atomics(self.atomics, other.atomics) {
            Some(a) => Decimal { atomics: a },
            None => vstd::pervasive::unreached(),
        }
    }

    pub fn checked_mul(self, other: Decimal) -> (r: Option<Decimal>)
        ensures
            mul_atomics(self.atomics as int, other.atomics as int) <= u128::MAX ==> r == Some(
                Decimal { atomics: mul_atomics(self.atomics as int, other.atomics as int) as u128 },
            ),
            mul_atomics(self.atomics as int, other.atomics as int) > u128::MAX ==> r is None,
    {
        match checked_mul_atomics(self.atomics, other.atomics) {
            Some(a) => Some(Decimal { atomics: a }),
            None => None,
        }
    }

    /// `self / other`, rounded down to 18 places; `other` must be non-zero and
    /// the quotient must fit.
    pub fn div(self, other: Decimal) -> (r: Decimal)
        requires
            div_fits(self.atomics as int, other.atomics as int),
        ensures
            r.atomics == div_atomics(self.atomics as int, other.atomics as int),
    {
        match checked_div_atomics(self.atomics, other.atomics) {
            Some(a) => Decimal { atomics: a },
            None => vstd::pervasive::unreached(),
        }
    }

    pub fn checked_div(self, other: Decimal) -> (r: Option<Decimal>)
        ensures
            div_fits(self.atomics as int, other.atomics as int) ==> r == Some(
                Decimal { atomics: div_atomics(self.atomics as int, other.atomics as int) as u128 },
            ),
            !div_fits(self.atomics as int, other.atomics as int) ==> r is None,
    {
        match checked_div_atomics(self.atomics, other.atomics) {
            Some(a) => Some(Decimal { atomics: a }),
            None => None,
        }
    }

    /// Rounds down to a whole number.
    pub fn floor(self) -> (r: Decimal)
        ensures
            r.atomics == (self.atomics as int / unit()) * unit(),
    {
        let w = self.atomics / DECIMAL_FRACTIONAL;
        assert(w * DECIMAL_FRACTIONAL <= self.atomics) by (nonlinear_arith)
            requires
                w == self.atomics / DECIMAL_FRACTIONAL,
                DECIMAL_FRACTIONAL > 0,
        ;
        Decimal { atomics: w * DECIMAL_FRACTIONAL }
    }

    /// The whole part, rounded down.
    pub fn to_uint_floor(self) -> (r: u128)
        ensures
            r == self.atomics as int / unit(),
    {
        self.atomics / DECIMAL_FRACTIONAL
    }

    /// The value rounded up to a whole number.
    pub fn to_uint_ceil(self) -> (r: u128)
        ensures
            r == if self.atomics == 0 {
                0
            } else {
                1 + (self.atomics - 1) / unit()
            },
    {
        if self.atomics == 0 {
            0
        } else {
            1 + (self.atomics - 1) / DECIMAL_FRACTIONAL
        }
    }

    /// The smaller of the two.
    pub fn min(self, other: Decimal) -> (r: Decimal)
        ensures
            r.atomics == if self.atomics <= other.atomics {
                self.atomics
            } else {
                other.atomics
            },
    {
        if self.atomics <= other.atomics {
            self
        } else {
            other
        }
    }

    /// Parses a decimal string such as `"1.5"`; `None` where the text is refused.
    pub fn from_str(s: &str) -> (r: Option<Decimal>)
        ensures
            decimal_parse(s@) is None ==> r is None,
            decimal_parse(s@) matches Some(a) ==> r == Some(Decimal { atomics: a }),
    {
        match parse_atomics(s) {
            Some(a) => Some(Decimal { atomics: a }),
            None => None,
        }
    }
}

} // verus!
