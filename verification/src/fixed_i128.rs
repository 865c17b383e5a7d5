//! Signed fixed-point numbers with 18 fractional digits over an `i128`, as the
//! rebalancer's controller computes with them (`cosmwasm_std::SignedDecimal`).
//! Sums and differences are exact; products and quotients truncate toward
//! zero, through `cosmwasm_std::SignedDecimal`.
use vstd::prelude::*;
use crate::decimal::{Decimal, unit};

verus! {

/// `v` is a valid signed atomics value.
pub open spec fn in_i128(v: int) -> bool {
    i128::MIN <= v <= i128::MAX
}

/// Integer division truncating toward zero (`b != 0`).
pub open spec fn div_trunc(a: int, b: int) -> int {
    let q = (if a < 0 { -a } else { a }) / (if b < 0 { -b } else { b });
    if (a < 0) == (b < 0) {
        q
    } else {
        -q
    }
}

/// The atomics of `a * b`, truncated toward zero.
pub open spec fn smul_atomics(a: int, b: int) -> int {
    div_trunc(a * b, unit())
}

/// The atomics of `a / b`, truncated toward zero.
pub open spec fn sdiv_atomics(a: int, b: int) -> int {
    div_trunc(a * unit(), b)
}

/// `cosmwasm_std::SignedDecimal * SignedDecimal` on atomics: the product
/// truncated toward zero to 18 places; it must fit an `i128`.
#[verifier::external_body]
fn mul_atomics_i128(a: i128, b: i128) -> (r: i128)
    requires
        in_i128(smul_atomics(a as int, b as int)),
    ensures
        r == smul_atomics(a as int, b as int),
{
    (cosmwasm_std::SignedDecimal::raw(a) * cosmwasm_std::SignedDecimal::raw(b)).atomics().i128()
}

/// `cosmwasm_std::SignedDecimal / SignedDecimal` on atomics: `a * 10^18 / b`
/// truncated toward zero; `b` must be non-zero and the quotient must fit.
#[verifier::external_body]
fn div_atomics_i128(a: i128, b: i128) -> (r: i128)
    requires
        b != 0,
        in_i128(sdiv_atomics(a as int, b as int)),
    ensures
        r == sdiv_atomics(a as int, b as int),
{
    (cosmwasm_std::SignedDecimal::raw(a) / cosmwasm_std::SignedDecimal::raw(b)).atomics().i128()
}

/// A signed decimal: the value times 10^18.
#[derive(Clone, Copy, Debug, PartialEq, Eq, Structural)]
pub struct FixedI128 {
    pub atomics: i128,
}

/// Error for a decimal too large to be held signed.
#[derive(Clone, Copy, Debug, PartialEq, Eq, Structural)]
pub struct SignedRangeExceeded;

impl FixedI128 {
    pub fn zero() -> (r: FixedI128)
        ensures
            r.atomics == 0,
    {
        FixedI128 { atomics: 0 }
    }

    /// The unsigned decimal `d`, where it fits.
    pub fn try_from_decimal(d: Decimal) -> (r: Result<FixedI128, SignedRangeExceeded>)
        ensures
            d.atomics <= i128::MAX ==> r == Ok::<FixedI128, SignedRangeExceeded>(
                FixedI128 { atomics: d.atomics as i128 },
            ),
            d.atomics > i128::MAX ==> r is Err,
    {
        if d.atomics <= i128::MAX as u128 {
            Ok(FixedI128 { atomics: d.atomics as i128 })
        } else {
            Err(SignedRangeExceeded)
        }
    }

    pub fn add(self, other: FixedI128) -> (r: FixedI128)
        requires
            in_i128(self.atomics + other.atomics),
        ensures
            r.atomics == self.atomics + other.atomics,
    {
        FixedI128 { atomics: self.atomics + other.atomics }
    }

    pub fn sub(self, other: FixedI128) -> (r: FixedI128)
        requires
            in_i128(self.atomics - other.atomics),
        ensures
            r.atomics == self.atomics - other.atomics,
    {
        FixedI128 { atomics: self.atomics - other.atomics }
    }

    pub fn mul(self, other: FixedI128) -> (r: FixedI128)
        requires
            in_i128(smul_atomics(self.atomics as int, other.atomics as int)),
        ensures
            r.atomics == smul_atomics(self.atomics as int, other.atomics as int),
    {
        FixedI128 { atomics: mul_atomics_i128(self.atomics, other.atomics) }
    }

    pub fn div(self, other: FixedI128) -> (r: FixedI128)
        requires
            other.atomics != 0,
            in_i128(sdiv_atomics(self.atomics as int, other.atomics as int)),
        ensures
            r.atomics == sdiv_atomics(self.atomics as int, other.atomics as int),
    {
        FixedI128 { atomics: div_atomics_i128(self.atomics, other.atomics) }
    }

    pub fn is_zero(self) -> (r: bool)
        ensures
            r == (self.atomics == 0),
    {
        self.atomics == 0
    }

    pub fn is_negative(self) -> (r: bool)
        ensures
            r == (self.atomics < 0),
    {
        self.atomics < 0
    }

    /// The distance from zero, as an unsigned decimal.
    pub fn abs(self) -> (r: Decimal)
        ensures
            r.atomics == (if self.atomics < 0 {
                -self.atomics
            } else {
                self.atomics as int
            }),
    {
        if self.atomics < 0 {
            if self.atomics == i128::MIN {
                Decimal { atomics: (i128::MAX as u128) + 1 }
            } else {
                Decimal { atomics: (-self.atomics) as u128 }
            }
        } else {
            Decimal { atomics: self.atomics as u128 }
        }
    }
}

} // verus!
