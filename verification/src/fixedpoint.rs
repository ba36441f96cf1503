//! Signed fixed-point numbers: an `i64` whose low `P` bits hold the fraction.
//!
//! The value that a raw `r` stands for is `r / 2^P`. Everything here works on
//! the raw integer exactly; the operations that go through floating point
//! (multiplication, division, powers, roots and trigonometry) are not part of
//! this module.
use vstd::prelude::*;
use vstd::arithmetic::power2::*;
use vstd::std_specs::cmp::{PartialEqSpecImpl, PartialOrdSpec, PartialOrdSpecImpl};
use vstd::std_specs::ops::{AddSpecImpl, SubSpecImpl, NegSpecImpl};
use crate::shift_lemmas::{scale, low_mask, lemma_one_shl, lemma_shr_floor, lemma_low_mask};
use core::cmp::Ordering;

verus! {

/// A fixed-point number with `P` fractional bits.
#[derive(Clone, Copy, Debug)]
pub struct FP<const P: u8>(pub i64);

impl<const P: u8> PartialEq for FP<P> {
    fn eq(&self, other: &Self) -> (r: bool) {
        self.0 == other.0
    }
}

impl<const P: u8> PartialEqSpecImpl for FP<P> {
    open spec fn obeys_eq_spec() -> bool {
        true
    }

    open spec fn eq_spec(&self, other: &Self) -> bool {
        self.0 == other.0
    }
}

impl<const P: u8> Eq for FP<P> {}

impl<const P: u8> PartialOrd for FP<P> {
    fn partial_cmp(&self, other: &Self) -> (r: Option<Ordering>)
        ensures
            (r == Some(Ordering::Less)) == (self.0 < other.0),
            (r == Some(Ordering::Equal)) == (self.0 == other.0),
            (r == Some(Ordering::Greater)) == (self.0 > other.0),
    {
        if self.0 < other.0 {
            Some(Ordering::Less)
        } else if self.0 == other.0 {
            Some(Ordering::Equal)
        } else {
            Some(Ordering::Greater)
        }
    }
}

impl<const P: u8> PartialOrdSpecImpl for FP<P> {
    open spec fn obeys_partial_cmp_spec() -> bool {
        true
    }

    open spec fn partial_cmp_spec(&self, other: &Self) -> Option<Ordering> {
        if self.0 < other.0 {
            Some(Ordering::Less)
        } else if self.0 == other.0 {
            Some(Ordering::Equal)
        } else {
            Some(Ordering::Greater)
        }
    }
}

impl<const P: u8> core::ops::Add for FP<P> {
    type Output = Self;

    fn add(self, rhs: Self) -> (r: Self)
        ensures
            r.0 == self.0 + rhs.0,
    {
        FP(self.0 + rhs.0)
    }
}

impl<const P: u8> AddSpecImpl for FP<P> {
    open spec fn obeys_add_spec() -> bool {
        true
    }

    open spec fn add_req(self, rhs: Self) -> bool {
        i64::MIN <= self.0 + rhs.0 <= i64::MAX
    }

    open spec fn add_spec(self, rhs: Self) -> Self {
        FP((self.0 + rhs.0) as i64)
    }
}

impl<const P: u8> core::ops::Sub for FP<P> {
    type Output = Self;

    fn sub(self, rhs: Self) -> (r: Self)
        ensures
            r.0 == self.0 - rhs.0,
    {
        FP(self.0 - rhs.0)
    }
}

impl<const P: u8> SubSpecImpl for FP<P> {
    open spec fn obeys_sub_spec() -> bool {
        true
    }

    open spec fn sub_req(self, rhs: Self) -> bool {
        i64::MIN <= self.0 - rhs.0 <= i64::MAX
    }

    open spec fn sub_spec(self, rhs: Self) -> Self {
        FP((self.0 - rhs.0) as i64)
    }
}

impl<const P: u8> core::ops::Neg for FP<P> {
    type Output = Self;

    fn neg(self) -> (r: Self)
        ensures
            r.0 == -self.0,
    {
        FP(-self.0)
    }
}

impl<const P: u8> NegSpecImpl for FP<P> {
    open spec fn obeys_neg_spec() -> bool {
        true
    }

    open spec fn neg_req(self) -> bool {
        self.0 != i64::MIN
    }

    open spec fn neg_spec(self) -> Self {
        FP((-self.0) as i64)
    }
}

impl<const P: u8> core::ops::AddAssign for FP<P> {
    fn add_assign(&mut self, rhs: Self)
        requires
            i64::MIN <= old(self).0 + rhs.0 <= i64::MAX,
        ensures
            final(self).0 == old(self).0 + rhs.0,
    {
        self.0 = self.0 + rhs.0;
    }
}

impl<const P: u8> core::ops::SubAssign for FP<P> {
    fn sub_assign(&mut self, rhs: Self)
        requires
            i64::MIN <= old(self).0 - rhs.0 <= i64::MAX,
        ensures
            final(self).0 == old(self).0 - rhs.0,
    {
        self.0 = self.0 - rhs.0;
    }
}

impl<const P: u8> Default for FP<P> {
    fn default() -> (r: Self)
        ensures
            r.0 == 0,
    {
        FP(0)
    }
}

impl<const P: u8> FP<P> {
    /// The value that this number stands for is `num() / den()`.
    pub open spec fn num(self) -> int {
        self.0 as int
    }

    /// The denominator shared by all numbers with `P` fractional bits.
    pub open spec fn den() -> int {
        scale(P)
    }

    /// One: the raw value `2^P`.
    pub open spec fn one_spec() -> Self {
        FP(1i64 << P)
    }

    /// One half: the raw value `2^(P-1)`.
    pub open spec fn half_spec() -> Self {
        FP(1i64 << ((P - 1) as u8))
    }

    /// Two: the raw value `2^(P+1)`.
    pub open spec fn two_spec() -> Self {
        FP(1i64 << ((P + 1) as u8))
    }

    /// Four: the raw value `2^(P+2)`.
    pub open spec fn four_spec() -> Self {
        FP(1i64 << ((P + 2) as u8))
    }

    /// The number with its fraction bits cleared.
    pub open spec fn trunc_spec(self) -> Self {
        FP(self.0 & !low_mask(P))
    }

    /// The fraction bits alone.
    pub open spec fn fract_spec(self) -> Self {
        FP(self.0 & low_mask(P))
    }

    /// The larger of two numbers.
    pub open spec fn max_spec(self, other: Self) -> Self {
        if self.0 >= other.0 {
            self
        } else {
            other
        }
    }

    /// The smaller of two numbers.
    pub open spec fn min_spec(self, other: Self) -> Self {
        if self.0 <= other.0 {
            self
        } else {
            other
        }
    }

    /// The absolute value.
    pub open spec fn abs_spec(self) -> Self {
        FP((if self.0 < 0 { -self.0 } else { self.0 as int }) as i64)
    }

    /// The raw value of one: `2^P`.
    pub fn scaling() -> (r: i64)
        requires
            P < 64,
        ensures
            r == 1i64 << P,
            P < 63 ==> r == scale(P),
    {
        proof {
            if P < 63 {
                lemma_one_shl(P);
            }
        }
        1i64 << P
    }

    /// The bits that hold the fraction: `2^P - 1`.
    pub fn mask() -> (r: i64)
        requires
            P < 63,
        ensures
            r == low_mask(P),
            r == scale(P) - 1,
    {
        proof {
            lemma_one_shl(P);
        }
        (1i64 << P) - 1
    }

    /// The integer part, rounded towards negative infinity.
    pub fn int_part(&self) -> (r: i64)
        requires
            P < 64,
        ensures
            r == self.0 >> P,
            r == self.num() / scale(P),
    {
        proof {
            lemma_shr_floor(self.0, P);
        }
        self.0 >> P
    }

    /// The integer part as an `i64`; always present.
    pub fn to_i64(&self) -> (r: Option<i64>)
        requires
            P < 64,
        ensures
            r == Some((self.num() / scale(P)) as i64),
    {
        Some(self.int_part())
    }

    /// The integer part as a `u64`, present for numbers that are not negative.
    pub fn to_u64(&self) -> (r: Option<u64>)
        requires
            P < 64,
        ensures
            self.0 >= 0 ==> r == Some((self.num() / scale(P)) as u64),
            self.0 < 0 ==> r.is_none(),
    {
        if self.0 >= 0 {
            proof {
                lemma_shr_floor(self.0, P);
                lemma_pow2_pos(P as nat);
            }
            Some((self.0 >> P) as u64)
        } else {
            None
        }
    }

    /// Zero.
    pub fn zero() -> (r: Self)
        ensures
            r.0 == 0,
    {
        FP(0)
    }

    /// Whether this number is zero.
    pub fn is_zero(&self) -> (r: bool)
        ensures
            r == (self.0 == 0),
    {
        self.0 == 0
    }

    /// Whether this number is not zero.
    pub fn non_zero(self) -> (r: bool)
        ensures
            r == (self.0 != 0),
    {
        self != Self::zero()
    }

    /// One.
    pub fn one() -> (r: Self)
        requires
            P < 64,
        ensures
            r == Self::one_spec(),
            P < 63 ==> r.0 == scale(P),
    {
        FP(Self::scaling())
    }

    /// One half.
    pub fn half() -> (r: Self)
        requires
            1 <= P <= 64,
        ensures
            r == Self::half_spec(),
            P < 64 ==> r.0 == scale((P - 1) as u8),
    {
        proof {
            if P < 64 {
                lemma_one_shl((P - 1) as u8);
            }
        }
        FP(1i64 << (P - 1))
    }

    /// Two.
    pub fn two() -> (r: Self)
        requires
            P < 63,
        ensures
            r == Self::two_spec(),
            P < 62 ==> r.0 == scale((P + 1) as u8),
    {
        proof {
            if P < 62 {
                lemma_one_shl((P + 1) as u8);
            }
        }
        FP(1i64 << (P + 1))
    }

    /// Four.
    pub fn four() -> (r: Self)
        requires
            P < 62,
        ensures
            r == Self::four_spec(),
            P < 61 ==> r.0 == scale((P + 2) as u8),
    {
        proof {
            if P < 61 {
                lemma_one_shl((P + 2) as u8);
            }
        }
        FP(1i64 << (P + 2))
    }

    /// The smallest tolerance used when comparing positions: one millionth.
    pub fn bias() -> (r: Self)
        requires
            P < 64,
        ensures
            P < 63 ==> r.0 == scale(P) / 1_000_000,
            P == 63 ==> r.0 == -(scale(63) / 1_000_000),
    {
        proof {
            if P < 63 {
                lemma_one_shl(P);
            } else {
                lemma_min_is_neg_scale();
            }
        }
        FP(Self::scaling() / 1_000_000)
    }

    /// One hundred-thousandth.
    pub fn bias2() -> (r: Self)
        requires
            P < 64,
        ensures
            P < 63 ==> r.0 == scale(P) / 100_000,
            P == 63 ==> r.0 == -(scale(63) / 100_000),
    {
        proof {
            if P < 63 {
                lemma_one_shl(P);
            } else {
                lemma_min_is_neg_scale();
            }
        }
        FP(Self::scaling() / 100_000)
    }

    /// One ten-thousandth.
    pub fn bias3() -> (r: Self)
        requires
            P < 64,
        ensures
            P < 63 ==> r.0 == scale(P) / 10_000,
            P == 63 ==> r.0 == -(scale(63) / 10_000),
    {
        proof {
            if P < 63 {
                lemma_one_shl(P);
            } else {
                lemma_min_is_neg_scale();
            }
        }
        FP(Self::scaling() / 10_000)
    }

    /// One thousandth.
    pub fn bias4() -> (r: Self)
        requires
            P < 64,
        ensures
            P < 63 ==> r.0 == scale(P) / 1_000,
            P == 63 ==> r.0 == -(scale(63) / 1_000),
    {
        proof {
            if P < 63 {
                lemma_one_shl(P);
            } else {
                lemma_min_is_neg_scale();
            }
        }
        FP(Self::scaling() / 1_000)
    }

    /// The largest number that can be held.
    pub fn max_value() -> (r: Self)
        ensures
            r.0 == i64::MAX,
    {
        FP(i64::MAX)
    }

    /// The number without its fraction, rounded towards negative infinity.
    pub fn trunc(self) -> (r: Self)
        requires
            P < 63,
        ensures
            r == self.trunc_spec(),
            r.0 == self.num() - self.num() % scale(P),
    {
        proof {
            lemma_low_mask(self.0, P);
        }
        FP(self.0 & !Self::mask())
    }

    /// The fraction alone, which is never negative.
    pub fn fract(self) -> (r: Self)
        requires
            P < 63,
        ensures
            r == self.fract_spec(),
            r.0 == self.num() % scale(P),
    {
        proof {
            lemma_low_mask(self.0, P);
        }
        FP(self.0 & Self::mask())
    }

    /// The absolute value.
    pub fn abs(self) -> (r: Self)
        requires
            self.0 != i64::MIN,
        ensures
            r == self.abs_spec(),
    {
        if self.0 < 0 {
            FP(-self.0)
        } else {
            self
        }
    }

    /// The larger of two numbers.
    pub fn max(self, other: Self) -> (r: Self)
        ensures
            r == self.max_spec(other),
    {
        if self.0 >= other.0 {
            self
        } else {
            other
        }
    }

    /// The smaller of two numbers.
    pub fn min(self, other: Self) -> (r: Self)
        ensures
            r == self.min_spec(other),
    {
        if self.0 <= other.0 {
            self
        } else {
            other
        }
    }

    /// The number limited to `low..=high`.
    pub fn clamp(self, low: Self, high: Self) -> (r: Self)
        requires
            low.0 <= high.0,
        ensures
            r.0 == if self.0 < low.0 { low.0 } else if self.0 > high.0 { high.0 } else { self.0 },
    {
        if self.0 < low.0 {
            low
        } else if self.0 > high.0 {
            high
        } else {
            self
        }
    }

    /// The number with integer part `value`; the bits shifted past the top are lost.
    pub fn from_i64(value: i64) -> (r: Self)
        requires
            P < 64,
        ensures
            r.0 == value << P,
            P < 63 && i64::MIN <= value as int * scale(P) <= i64::MAX ==> r.0 == value as int * scale(P),
    {
        proof {
            if P < 63 && i64::MIN <= value as int * scale(P) <= i64::MAX {
                lemma_shl_is_mul(value, P);
            }
        }
        FP(value << P)
    }

    /// The number with integer part `value`.
    pub fn from_i32(value: i32) -> (r: Self)
        requires
            P < 64,
        ensures
            r.0 == (value as i64) << P,
            P < 33 ==> r.0 == value as int * scale(P),
    {
        proof {
            if P < 33 {
                lemma_small_shl(value as i64, P);
            }
        }
        Self::from_i64(value as i64)
    }

    /// The number with integer part `value`.
    pub fn from_u32(value: u32) -> (r: Self)
        requires
            P < 64,
        ensures
            r.0 == (value as i64) << P,
            P < 32 ==> r.0 == value as int * scale(P),
    {
        proof {
            if P < 32 {
                lemma_small_shl(value as i64, P);
            }
        }
        Self::from_i64(value as i64)
    }

    /// The number with integer part `value`, which is first taken as an `i64`
    /// (wrapping above `i64::MAX`).
    pub fn from_usize(value: usize) -> (r: Self)
        requires
            P < 64,
        ensures
            r.0 == (value as i64) << P,
    {
        Self::from_i64(value as i64)
    }
}

/// `1 << 63` is `i64::MIN`, which is `-2^63`.
pub proof fn lemma_min_is_neg_scale()
    ensures
        1i64 << 63u8 == i64::MIN,
        scale(63) == 0x8000_0000_0000_0000,
{
    assert(1i64 << 63u8 == i64::MIN) by (bit_vector);
    lemma2_to64_rest();
}

/// Shifting left multiplies by `2^p` when the product fits.
pub proof fn lemma_shl_is_mul(v: i64, p: u8)
    requires
        p < 63,
        i64::MIN <= v as int * scale(p) <= i64::MAX,
    ensures
        v << p == v as int * scale(p),
{
    lemma_one_shl(p);
    let d: i64 = 1i64 << p;
    assert(v << p == (v * d) as i64) by (bit_vector)
        requires
            p < 63,
            d == 1i64 << p,
    ;
}

/// A value of at most 32 bits shifted by at most 32 bits does not overflow.
pub proof fn lemma_small_shl(v: i64, p: u8)
    requires
        p < 33,
        -0x8000_0000 <= v <= 0xffff_ffff,
        p < 32 || v <= 0x7fff_ffff,
    ensures
        v << p == v as int * scale(p),
        i64::MIN <= v as int * scale(p) <= i64::MAX,
{
    lemma2_to64();
    lemma2_to64_rest();
    let d = scale(p);
    if p < 32 {
        if p < 31 {
            lemma_pow2_strictly_increases(p as nat, 31);
        }
        assert(0 < d <= 0x8000_0000);
        assert(i64::MIN <= v as int * d <= i64::MAX) by (nonlinear_arith)
            requires
                0 < d <= 0x8000_0000,
                -0x8000_0000 <= v <= 0xffff_ffff,
        ;
    } else {
        assert(d == 0x1_0000_0000);
        assert(i64::MIN <= v as int * d <= i64::MAX) by (nonlinear_arith)
            requires
                d == 0x1_0000_0000,
                -0x8000_0000 <= v <= 0x7fff_ffff,
        ;
    }
    lemma_shl_is_mul(v, p);
}

/// Numbers are ordered by the values they stand for: `a` comes before `b`
/// exactly when its raw value is the smaller signed integer, so that every
/// negative number comes before every positive one.
pub proof fn law_order_by_value<const P: u8>(a: FP<P>, b: FP<P>)
    ensures
        (PartialOrdSpec::partial_cmp_spec(&a, &b) == Some(Ordering::Less)) == (a.num() < b.num()),
        (PartialOrdSpec::partial_cmp_spec(&a, &b) == Some(Ordering::Equal)) == (a.num() == b.num()),
        (PartialOrdSpec::partial_cmp_spec(&a, &b) == Some(Ordering::Greater)) == (a.num() > b.num()),
        a.num() < 0 && b.num() > 0 ==> PartialOrdSpec::partial_cmp_spec(&a, &b) == Some(Ordering::Less),
        PartialOrdSpec::partial_cmp_spec(&a, &b) is Some,
{
}

} // verus!
