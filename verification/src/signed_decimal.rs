//! A sign-and-magnitude decimal.
//!
//! The rebalancer computes differences that may be negative: a positive result
//! means an asset has to be bought, a negative one that it has to be sold.
//! `SignedDecimal(magnitude, is_positive)` carries the sign beside an unsigned
//! `Decimal`; sums and differences are exact and always give zero the positive
//! sign.
use vstd::prelude::*;
use crate::decimal::{Decimal, decimal_parse, mul_atomics, div_atomics, div_fits, unit};

verus! {

/// The magnitude and the sign (`true` for positive).
#[derive(Clone, Copy, Debug, PartialEq, Eq, Structural)]
pub struct SignedDecimal(pub Decimal, pub bool);

/// Error returned by `SignedDecimal::from_str` where the text is not a decimal.
#[derive(Clone, Copy, Debug, PartialEq, Eq, Structural)]
pub struct ParseSignedDecimalError;

/// `v` can be the value of a `SignedDecimal`: its magnitude fits the atomics.
pub open spec fn fits(v: int) -> bool {
    -(u128::MAX as int) <= v <= u128::MAX
}

/// The canonical `SignedDecimal` of the atomics `v`: zero is positive.
pub open spec fn from_value(v: int) -> SignedDecimal {
    SignedDecimal(Decimal { atomics: (if v < 0 { -v } else { v }) as u128 }, v >= 0)
}

/// The product's magnitude and sign; a zero product is positive.
pub open spec fn mul_spec(a: SignedDecimal, b: SignedDecimal) -> SignedDecimal {
    let m = mul_atomics(a.0.atomics as int, b.0.atomics as int);
    SignedDecimal(Decimal { atomics: m as u128 }, m == 0 || a.1 == b.1)
}

/// The quotient's magnitude and sign; a zero quotient is positive.
pub open spec fn div_spec(a: SignedDecimal, b: SignedDecimal) -> SignedDecimal {
    let q = div_atomics(a.0.atomics as int, b.0.atomics as int);
    SignedDecimal(Decimal { atomics: q as u128 }, q == 0 || a.1 == b.1)
}

/// What `from_str` yields: an optional leading `-` or `+` chooses the sign, the
/// rest is parsed as an unsigned decimal. The sign is kept even for zero.
pub open spec fn parse_spec(s: Seq<char>) -> Option<SignedDecimal> {
    let (sign, rest) = if s.len() > 0 && s[0] == '-' {
        (false, s.skip(1))
    } else if s.len() > 0 && s[0] == '+' {
        (true, s.skip(1))
    } else {
        (true, s)
    };
    match decimal_parse(rest) {
        Some(a) => Some(SignedDecimal(Decimal { atomics: a }, sign)),
        None => None,
    }
}

impl SignedDecimal {
    /// The signed value times 10^18.
    pub open spec fn signed_atomics(self) -> int {
        if self.1 {
            self.0.atomics as int
        } else {
            -(self.0.atomics as int)
        }
    }

    /// Zero carries the positive sign.
    pub open spec fn is_canonical(self) -> bool {
        self.0.atomics == 0 ==> self.1
    }

    pub open spec fn add_req(self, other: SignedDecimal) -> bool {
        fits(self.signed_atomics() + other.signed_atomics())
    }

    pub open spec fn sub_req(self, other: SignedDecimal) -> bool {
        fits(self.signed_atomics() - other.signed_atomics())
    }

    pub open spec fn mul_req(self, other: SignedDecimal) -> bool {
        mul_atomics(self.0.atomics as int, other.0.atomics as int) <= u128::MAX
    }

    pub open spec fn div_req(self, other: SignedDecimal) -> bool {
        div_fits(self.0.atomics as int, other.0.atomics as int)
    }

    /// A signed decimal with the given magnitude and sign; zero is made positive.
    pub fn new(num: Decimal, sign: bool) -> (r: SignedDecimal)
        ensures
            r.0 == num,
            r.1 == (sign || num.atomics == 0),
    {
        if num.is_zero() {
            SignedDecimal(num, true)
        } else {
            SignedDecimal(num, sign)
        }
    }

    /// The positive decimal `value`.
    pub fn from_decimal(value: Decimal) -> (r: SignedDecimal)
        ensures
            r == SignedDecimal(value, true),
    {
        SignedDecimal(value, true)
    }

    /// The positive whole number `value`; `value * 10^18` must fit.
    pub fn from_uint(value: u128) -> (r: SignedDecimal)
        requires
            value as int * unit() <= u128::MAX,
        ensures
            r == SignedDecimal(Decimal { atomics: (value as int * unit()) as u128 }, true),
    {
        match Decimal::from_uint(value) {
            Ok(d) => SignedDecimal(d, true),
            Err(_) => vstd::pervasive::unreached(),
        }
    }

    /// The magnitude.
    pub fn to_decimal(self) -> (r: Decimal)
        ensures
            r == self.0,
    {
        self.0
    }

    /// `self + other`, exact.
    pub fn __add(self, other: SignedDecimal) -> (r: SignedDecimal)
        requires
            self.add_req(other),
        ensures
            r == from_value(self.signed_atomics() + other.signed_atomics()),
            r.signed_atomics() == self.signed_atomics() + other.signed_atomics(),
            r.is_canonical(),
    {
        let a = self.0;
        let b = other.0;
        let res = if self.1 == other.1 {
            SignedDecimal(a.add(b), self.1)
        } else if self.1 {
            // "+" plus "-"
            if a.atomics > b.atomics {
                SignedDecimal(a.sub(b), true)
            } else {
                SignedDecimal(b.sub(a), false)
            }
        } else {
            // "-" plus "+"
            if a.atomics > b.atomics {
                SignedDecimal(a.sub(b), false)
            } else {
                SignedDecimal(b.sub(a), true)
            }
        };
        if res.0.is_zero() {
            SignedDecimal(res.0, true)
        } else {
            res
        }
    }

    /// `self - other`, exact.
    pub fn __sub(self, other: SignedDecimal) -> (r: SignedDecimal)
        requires
            self.sub_req(other),
        ensures
            r == from_value(self.signed_atomics() - other.signed_atomics()),
            r.signed_atomics() == self.signed_atomics() - other.signed_atomics(),
            r.is_canonical(),
    {
        let a = self.0;
        let b = other.0;
        let res = if self.1 != other.1 {
            SignedDecimal(a.add(b), self.1)
        } else if self.1 {
            // "+" minus "+"
            if a.atomics > b.atomics {
                SignedDecimal(a.sub(b), true)
            } else {
                SignedDecimal(b.sub(a), false)
            }
        } else {
            // "-" minus "-"
            if a.atomics > b.atomics {
                SignedDecimal(a.sub(b), false)
            } else {
                SignedDecimal(b.sub(a), true)
            }
        };
        if res.0.is_zero() {
            SignedDecimal(res.0, true)
        } else {
            res
        }
    }

    /// `self * other`: the product of the magnitudes rounded down to 18 places;
    /// positive where the signs agree or the product is zero.
    pub fn __mul(self, other: SignedDecimal) -> (r: SignedDecimal)
        requires
            self.mul_req(other),
        ensures
            r == mul_spec(self, other),
    {
        let m = self.0.mul(other.0);
        SignedDecimal(m, m.is_zero() || self.1 == other.1)
    }

    /// `self / other`: the quotient of the magnitudes rounded down to 18 places;
    /// positive where the signs agree or the quotient is zero.
    pub fn __div(self, other: SignedDecimal) -> (r: SignedDecimal)
        requires
            self.div_req(other),
        ensures
            r == div_spec(self, other),
    {
        let q = self.0.div(other.0);
        SignedDecimal(q, q.is_zero() || self.1 == other.1)
    }

    pub fn value(self) -> (r: Decimal)
        ensures
            r == self.0,
    {
        self.0
    }

    pub fn sign(self) -> (r: bool)
        ensures
            r == self.1,
    {
        self.1
    }

    pub fn zero() -> (r: SignedDecimal)
        ensures
            r == SignedDecimal(Decimal { atomics: 0 }, true),
    {
        SignedDecimal(Decimal::zero(), true)
    }

    pub fn positive_one() -> (r: SignedDecimal)
        ensures
            r == SignedDecimal(Decimal { atomics: unit() as u128 }, true),
    {
        SignedDecimal(Decimal::one(), true)
    }

    pub fn neg_one() -> (r: SignedDecimal)
        ensures
            r == SignedDecimal(Decimal { atomics: unit() as u128 }, false),
    {
        SignedDecimal(Decimal::one(), false)
    }

    /// The magnitude rounded down to a whole number.
    pub fn to_uint_floor(self) -> (r: u128)
        ensures
            r == self.0.atomics as int / unit(),
    {
        self.0.to_uint_floor()
    }

    /// The magnitude rounded up to a whole number.
    pub fn to_uint_ceil(self) -> (r: u128)
        ensures
            r == if self.0.atomics == 0 {
                0
            } else {
                1 + (self.0.atomics - 1) / unit()
            },
    {
        self.0.to_uint_ceil()
    }

    pub fn is_zero(self) -> (r: bool)
        ensures
            r == (self.0.atomics == 0),
    {
        self.0.is_zero()
    }

    /// The sign is positive (zero counts as positive once normalised).
    pub fn is_pos(self) -> (r: bool)
        ensures
            r == self.1,
    {
        self.1
    }

    /// The sign is negative.
    pub fn is_neg(self) -> (r: bool)
        ensures
            r == !self.1,
    {
        !self.1
    }

    /// Parses `"1.5"`, `"+1.5"` or `"-1.5"`.
    pub fn from_str(s: &str) -> (r: Result<SignedDecimal, ParseSignedDecimalError>)
        ensures
            parse_spec(s@) matches Some(d) ==> r == Ok::<SignedDecimal, ParseSignedDecimalError>(d),
            parse_spec(s@) is None ==> r is Err,
    {
        let len = s.unicode_len();
        let (sign, rest) = if len > 0 && s.get_char(0) == '-' {
            (false, s.substring_char(1, len))
        } else if len > 0 && s.get_char(0) == '+' {
            (true, s.substring_char(1, len))
        } else {
            (true, s)
        };
        assert(len > 0 ==> s@.skip(1) =~= s@.subrange(1, len as int));
        match Decimal::from_str(rest) {
            Some(d) => Ok(SignedDecimal(d, sign)),
            None => Err(ParseSignedDecimalError),
        }
    }
}

impl core::ops::Add for SignedDecimal {
    type Output = SignedDecimal;

    fn add(self, other: SignedDecimal) -> (r: SignedDecimal) {
        self.__add(other)
    }
}

impl vstd::std_specs::ops::AddSpecImpl for SignedDecimal {
    open spec fn obeys_add_spec() -> bool {
        true
    }

    open spec fn add_req(self, other: SignedDecimal) -> bool {
        fits(self.signed_atomics() + other.signed_atomics())
    }

    open spec fn add_spec(self, other: SignedDecimal) -> SignedDecimal {
        from_value(self.signed_atomics() + other.signed_atomics())
    }
}

impl core::ops::Sub for SignedDecimal {
    type Output = SignedDecimal;

    fn sub(self, other: SignedDecimal) -> (r: SignedDecimal) {
        self.__sub(other)
    }
}

impl vstd::std_specs::ops::SubSpecImpl for SignedDecimal {
    open spec fn obeys_sub_spec() -> bool {
        true
    }

    open spec fn sub_req(self, other: SignedDecimal) -> bool {
        fits(self.signed_atomics() - other.signed_atomics())
    }

    open spec fn sub_spec(self, other: SignedDecimal) -> SignedDecimal {
        from_value(self.signed_atomics() - other.signed_atomics())
    }
}

impl core::ops::Mul for SignedDecimal {
    type Output = SignedDecimal;

    fn mul(self, other: SignedDecimal) -> (r: SignedDecimal) {
        self.__mul(other)
    }
}

impl vstd::std_specs::ops::MulSpecImpl for SignedDecimal {
    open spec fn obeys_mul_spec() -> bool {
        true
    }

    open spec fn mul_req(self, other: SignedDecimal) -> bool {
        mul_atomics(self.0.atomics as int, other.0.atomics as int) <= u128::MAX
    }

    open spec fn mul_spec(self, other: SignedDecimal) -> SignedDecimal {
        mul_spec(self, other)
    }
}

impl core::ops::Div for SignedDecimal {
    type Output = SignedDecimal;

    fn div(self, other: SignedDecimal) -> (r: SignedDecimal) {
        self.__div(other)
    }
}

impl vstd::std_specs::ops::DivSpecImpl for SignedDecimal {
    open spec fn obeys_div_spec() -> bool {
        true
    }

    open spec fn div_req(self, other: SignedDecimal) -> bool {
        div_fits(self.0.atomics as int, other.0.atomics as int)
    }

    open spec fn div_spec(self, other: SignedDecimal) -> SignedDecimal {
        div_spec(self, other)
    }
}

impl core::convert::From<Decimal> for SignedDecimal {
    fn from(value: Decimal) -> (r: SignedDecimal) {
        SignedDecimal(value, true)
    }
}

impl vstd::std_specs::convert::FromSpecImpl<Decimal> for SignedDecimal {
    open spec fn obeys_from_spec() -> bool {
        true
    }

    open spec fn from_spec(value: Decimal) -> SignedDecimal {
        SignedDecimal(value, true)
    }
}

impl core::convert::From<SignedDecimal> for Decimal {
    fn from(value: SignedDecimal) -> (r: Decimal) {
        value.0
    }
}

impl vstd::std_specs::convert::FromSpecImpl<SignedDecimal> for Decimal {
    open spec fn obeys_from_spec() -> bool {
        true
    }

    open spec fn from_spec(value: SignedDecimal) -> Decimal {
        value.0
    }
}

/// The value of a canonical result is the value it was made from.
pub proof fn lemma_from_value_roundtrip(v: int)
    requires
        fits(v),
    ensures
        from_value(v).signed_atomics() == v,
        from_value(v).is_canonical(),
{
}

/// Addition is commutative.
pub proof fn lemma_add_commutative(a: SignedDecimal, b: SignedDecimal)
    ensures
        from_value(a.signed_atomics() + b.signed_atomics()) == from_value(
            b.signed_atomics() + a.signed_atomics(),
        ),
{
}

/// Subtracting what was added gives back the first operand (made canonical):
/// `(a + b) - b == a`.
pub proof fn lemma_sub_undoes_add(a: SignedDecimal, b: SignedDecimal)
    requires
        a.add_req(b),
    ensures
        from_value(from_value(a.signed_atomics() + b.signed_atomics()).signed_atomics()
            - b.signed_atomics()) == from_value(a.signed_atomics()),
{
    lemma_from_value_roundtrip(a.signed_atomics() + b.signed_atomics());
}

/// A value minus itself is the positive zero, whatever its sign.
pub proof fn lemma_sub_self_is_positive_zero(a: SignedDecimal)
    ensures
        from_value(a.signed_atomics() - a.signed_atomics()) == SignedDecimal(Decimal { atomics: 0 }, true),
{
}

/// A canonical value is its own canonical form; only zero has two forms, and
/// the negative zero becomes the positive one.
pub proof fn lemma_canonical_fixed(a: SignedDecimal)
    ensures
        a.is_canonical() ==> from_value(a.signed_atomics()) == a,
        from_value(a.signed_atomics()).0 == a.0,
{
}

/// The sign of a product or quotient is positive exactly where the signs agree.
pub proof fn lemma_mul_div_sign(a: SignedDecimal, b: SignedDecimal)
    ensures
        mul_spec(a, b).0.atomics != 0 ==> mul_spec(a, b).1 == (a.1 == b.1),
        div_spec(a, b).0.atomics != 0 ==> div_spec(a, b).1 == (a.1 == b.1),
        mul_spec(a, b) == mul_spec(b, a),
{
    assert(a.0.atomics as int * b.0.atomics as int == b.0.atomics as int * a.0.atomics as int) by (nonlinear_arith);
}

/// Zero is always positive: whatever `+`, `-`, `*` or `/` gives as zero
/// carries the positive sign (as `new` does, by its contract).
pub proof fn lemma_zero_is_positive(a: SignedDecimal, b: SignedDecimal)
    ensures
        a.signed_atomics() + b.signed_atomics() == 0 ==> from_value(a.signed_atomics() + b.signed_atomics())
            == SignedDecimal(Decimal { atomics: 0 }, true),
        a.signed_atomics() - b.signed_atomics() == 0 ==> from_value(a.signed_atomics() - b.signed_atomics())
            == SignedDecimal(Decimal { atomics: 0 }, true),
        mul_atomics(a.0.atomics as int, b.0.atomics as int) <= u128::MAX && mul_spec(a, b).0.atomics == 0
            ==> mul_spec(a, b).1,
        b.0.atomics != 0 && div_atomics(a.0.atomics as int, b.0.atomics as int) <= u128::MAX && div_spec(
            a,
            b,
        ).0.atomics == 0 ==> div_spec(a, b).1,
{
    if b.0.atomics != 0 {
        assert(div_atomics(a.0.atomics as int, b.0.atomics as int) >= 0) by (nonlinear_arith)
            requires
                a.0.atomics >= 0,
                b.0.atomics > 0,
        ;
    }
}

} // verus!
