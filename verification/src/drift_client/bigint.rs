use num_bigint::Sign;
use vstd::prelude::*;

verus! {

/// The value of base-2^32 digits, least significant digit first.
pub open spec fn digits_value(d: Seq<u32>) -> nat
    decreases d.len(),
{
    if d.len() == 0 {
        0
    } else {
        d[0] as nat + 4294967296 * digits_value(d.drop_first())
    }
}

/// Division that truncates toward zero, as integer division does in Rust
/// and in `num_bigint`.
pub open spec fn tdiv(a: int, b: int) -> int {
    let q = (if a >= 0 {
        a
    } else {
        -a
    }) / (if b >= 0 {
        b
    } else {
        -b
    });
    if (a >= 0) == (b >= 0) || q == 0 {
        q
    } else {
        -q
    }
}

pub open spec fn imax(a: int, b: int) -> int {
    if a >= b {
        a
    } else {
        b
    }
}

pub open spec fn imin(a: int, b: int) -> int {
    if a <= b {
        a
    } else {
        b
    }
}

pub open spec fn iabs(a: int) -> int {
    if a < 0 {
        -a
    } else {
        a
    }
}

/// An integer of any size, held as a sign and base-2^32 digits (least
/// significant first); arithmetic on it is carried out by `num_bigint`.
pub struct BigNum {
    neg: bool,
    mag: Vec<u32>,
}

impl BigNum {
    /// The integer that the sign and the digits stand for.
    pub closed spec fn value(&self) -> int {
        if self.neg {
            -(digits_value(self.mag@) as int)
        } else {
            digits_value(self.mag@) as int
        }
    }

    /// `num_bigint::BigInt::from(i128)`: the result has the value of `x`.
    #[verifier::external_body]
    pub(crate) fn from_i128(x: i128) -> (r: BigNum)
        ensures
            r.value() == x,
    {
        let (s, mag) = num_bigint::BigInt::from(x).to_u32_digits();
        let neg = match s {
            Sign::Minus => true,
            Sign::NoSign => false,
            Sign::Plus => false,
        };
        BigNum { neg, mag }
    }

    /// `num_bigint::BigInt::from(u128)`: the result has the value of `x`.
    #[verifier::external_body]
    pub(crate) fn from_u128(x: u128) -> (r: BigNum)
        ensures
            r.value() == x,
    {
        let (s, mag) = num_bigint::BigInt::from(x).to_u32_digits();
        let neg = match s {
            Sign::Minus => true,
            Sign::NoSign => false,
            Sign::Plus => false,
        };
        BigNum { neg, mag }
    }

    /// `num_bigint::BigInt` addition: the result is the exact sum.
    #[verifier::external_body]
    pub(crate) fn add(&self, o: &BigNum) -> (r: BigNum)
        ensures
            r.value() == self.value() + o.value(),
    {
        let a = num_bigint::BigInt::from_slice(if self.neg { Sign::Minus } else { Sign::Plus }, &self.mag);
        let b = num_bigint::BigInt::from_slice(if o.neg { Sign::Minus } else { Sign::Plus }, &o.mag);
        let (s, mag) = (a + b).to_u32_digits();
        let neg = match s {
            Sign::Minus => true,
            Sign::NoSign => false,
            Sign::Plus => false,
        };
        BigNum { neg, mag }
    }

    /// `num_bigint::BigInt` subtraction: the result is the exact difference.
    #[verifier::external_body]
    pub(crate) fn sub(&self, o: &BigNum) -> (r: BigNum)
        ensures
            r.value() == self.value() - o.value(),
    {
        let a = num_bigint::BigInt::from_slice(if self.neg { Sign::Minus } else { Sign::Plus }, &self.mag);
        let b = num_bigint::BigInt::from_slice(if o.neg { Sign::Minus } else { Sign::Plus }, &o.mag);
        let (s, mag) = (a - b).to_u32_digits();
        let neg = match s {
            Sign::Minus => true,
            Sign::NoSign => false,
            Sign::Plus => false,
        };
        BigNum { neg, mag }
    }

    /// `num_bigint::BigInt` multiplication: the result is the exact product.
    #[verifier::external_body]
    pub(crate) fn mul(&self, o: &BigNum) -> (r: BigNum)
        ensures
            r.value() == self.value() * o.value(),
    {
        let a = num_bigint::BigInt::from_slice(if self.neg { Sign::Minus } else { Sign::Plus }, &self.mag);
        let b = num_bigint::BigInt::from_slice(if o.neg { Sign::Minus } else { Sign::Plus }, &o.mag);
        let (s, mag) = (a * b).to_u32_digits();
        let neg = match s {
            Sign::Minus => true,
            Sign::NoSign => false,
            Sign::Plus => false,
        };
        BigNum { neg, mag }
    }

    /// `num_bigint::BigInt` division, which truncates toward zero; it panics
    /// on a zero divisor, which `requires` leaves out.
    #[verifier::external_body]
    pub(crate) fn div(&self, o: &BigNum) -> (r: BigNum)
        requires
            o.value() != 0,
        ensures
            r.value() == tdiv(self.value(), o.value()),
    {
        let a = num_bigint::BigInt::from_slice(if self.neg { Sign::Minus } else { Sign::Plus }, &self.mag);
        let b = num_bigint::BigInt::from_slice(if o.neg { Sign::Minus } else { Sign::Plus }, &o.mag);
        let (s, mag) = (a / b).to_u32_digits();
        let neg = match s {
            Sign::Minus => true,
            Sign::NoSign => false,
            Sign::Plus => false,
        };
        BigNum { neg, mag }
    }

    /// `<num_bigint::BigInt as PartialOrd>::lt`: whether `self` is smaller.
    #[verifier::external_body]
    pub(crate) fn lt(&self, o: &BigNum) -> (r: bool)
        ensures
            r == (self.value() < o.value()),
    {
        let a = num_bigint::BigInt::from_slice(if self.neg { Sign::Minus } else { Sign::Plus }, &self.mag);
        let b = num_bigint::BigInt::from_slice(if o.neg { Sign::Minus } else { Sign::Plus }, &o.mag);
        a < b
    }

    /// `num_traits::ToPrimitive::to_i128`: the value when it fits in `i128`.
    #[verifier::external_body]
    pub(crate) fn to_i128(&self) -> (r: Option<i128>)
        ensures
            r == (if i128::MIN <= self.value() <= i128::MAX {
                Some(self.value() as i128)
            } else {
                None::<i128>
            }),
    {
        let a = num_bigint::BigInt::from_slice(if self.neg { Sign::Minus } else { Sign::Plus }, &self.mag);
        num_traits::ToPrimitive::to_i128(&a)
    }

    /// `num_traits::ToPrimitive::to_u128`: the value when it fits in `u128`.
    #[verifier::external_body]
    pub(crate) fn to_u128(&self) -> (r: Option<u128>)
        ensures
            r == (if 0 <= self.value() <= u128::MAX {
                Some(self.value() as u128)
            } else {
                None::<u128>
            }),
    {
        let a = num_bigint::BigInt::from_slice(if self.neg { Sign::Minus } else { Sign::Plus }, &self.mag);
        num_traits::ToPrimitive::to_u128(&a)
    }

    /// The number `x`.
    pub fn new(x: i128) -> (r: BigNum)
        ensures
            r.value() == x,
    {
        BigNum::from_i128(x)
    }

    /// The value, when it fits in an `i128`.
    pub fn value_i128(&self) -> (r: Option<i128>)
        ensures
            r == (if i128::MIN <= self.value() <= i128::MAX {
                Some(self.value() as i128)
            } else {
                None::<i128>
            }),
    {
        self.to_i128()
    }

    /// A copy with the same value.
    pub fn copy(&self) -> (r: BigNum)
        ensures
            r.value() == self.value(),
    {
        BigNum { neg: self.neg, mag: self.mag.clone() }
    }

    pub fn from_i64(x: i64) -> (r: BigNum)
        ensures
            r.value() == x,
    {
        BigNum::from_i128(x as i128)
    }

    pub fn from_u64(x: u64) -> (r: BigNum)
        ensures
            r.value() == x,
    {
        BigNum::from_i128(x as i128)
    }

    pub fn le(&self, o: &BigNum) -> (r: bool)
        ensures
            r == (self.value() <= o.value()),
    {
        !o.lt(self)
    }

    pub fn gt(&self, o: &BigNum) -> (r: bool)
        ensures
            r == (self.value() > o.value()),
    {
        o.lt(self)
    }

    pub fn ge(&self, o: &BigNum) -> (r: bool)
        ensures
            r == (self.value() >= o.value()),
    {
        !self.lt(o)
    }

    pub fn eq(&self, o: &BigNum) -> (r: bool)
        ensures
            r == (self.value() == o.value()),
    {
        !self.lt(o) && !o.lt(self)
    }

    /// The value negated.
    pub fn neg(&self) -> (r: BigNum)
        ensures
            r.value() == -self.value(),
    {
        BigNum::from_i128(0).sub(self)
    }

    /// The absolute value.
    pub fn abs(&self) -> (r: BigNum)
        ensures
            r.value() == iabs(self.value()),
    {
        if self.lt(&BigNum::from_i128(0)) {
            self.neg()
        } else {
            self.copy()
        }
    }

    /// The larger of the two values.
    pub fn max(&self, o: &BigNum) -> (r: BigNum)
        ensures
            r.value() == imax(self.value(), o.value()),
    {
        if self.lt(o) {
            o.copy()
        } else {
            self.copy()
        }
    }

    /// The smaller of the two values.
    pub fn min(&self, o: &BigNum) -> (r: BigNum)
        ensures
            r.value() == imin(self.value(), o.value()),
    {
        if o.lt(self) {
            o.copy()
        } else {
            self.copy()
        }
    }

    /// Multiplication by a machine integer.
    pub fn mul_i(&self, k: i128) -> (r: BigNum)
        ensures
            r.value() == self.value() * k,
    {
        self.mul(&BigNum::from_i128(k))
    }

    /// Truncating division by a nonzero machine integer.
    pub fn div_i(&self, k: i128) -> (r: BigNum)
        requires
            k != 0,
        ensures
            r.value() == tdiv(self.value(), k as int),
    {
        self.div(&BigNum::from_i128(k))
    }

    /// Addition of a machine integer.
    pub fn add_i(&self, k: i128) -> (r: BigNum)
        ensures
            r.value() == self.value() + k,
    {
        self.add(&BigNum::from_i128(k))
    }
}

} // verus!
