//! Edge weights as IEEE-754 single-precision encodings.
//!
//! A weight is held as the 32 bits of its encoding: one sign bit, eight
//! exponent bits and twenty-three fraction bits. What the bits stand for is
//! stated as an exact integer, and the comparisons are proved against it.

use std::cmp::Ordering;
use vstd::arithmetic::power2::{lemma_pow2_pos, lemma_pow2_strictly_increases, lemma_pow2_unfold, pow2};
use vstd::prelude::*;
use vstd::std_specs::cmp::{PartialEqSpecImpl, PartialOrdSpecImpl};

verus! {

/// The encoding's sign bit.
pub const SIGN_BIT: u32 = 0x8000_0000;

/// The number of fraction patterns under one exponent, 2^23.
pub const FRACTION_SPAN: u32 = 0x80_0000;

/// The exponent field of infinities and of what is not a number.
pub const TOP_EXPONENT: u32 = 0xFF;

/// An edge weight: the bits of a single-precision number.
#[derive(Clone, Copy, Debug)]
pub struct Weight {
    pub bits: u32,
}

impl Weight {
    /// Whether the sign bit is set.
    pub open spec fn is_negative(self) -> bool {
        self.bits >= SIGN_BIT
    }

    /// The encoding without its sign bit.
    pub open spec fn body(self) -> nat {
        (self.bits % SIGN_BIT) as nat
    }

    /// The exponent field.
    pub open spec fn exponent(self) -> nat {
        self.body() / (FRACTION_SPAN as nat)
    }

    /// The fraction field.
    pub open spec fn fraction(self) -> nat {
        self.body() % (FRACTION_SPAN as nat)
    }

    /// Whether the bits encode no number at all.
    pub open spec fn is_nan(self) -> bool {
        self.exponent() == TOP_EXPONENT && self.fraction() != 0
    }

    /// The absolute value, counted in units of 2^-149, the smallest positive
    /// single-precision number. Every finite weight is a whole number of
    /// them. An infinity counts as 2^277, which is above every finite weight.
    pub open spec fn magnitude(self) -> nat {
        if self.exponent() == 0 {
            self.fraction()
        } else {
            (FRACTION_SPAN as nat + self.fraction()) * pow2((self.exponent() - 1) as nat)
        }
    }

    /// The value in units of 2^-149, with its sign. Both zeros are 0.
    pub open spec fn scaled(self) -> int {
        if self.is_negative() {
            -(self.magnitude() as int)
        } else {
            self.magnitude() as int
        }
    }

    /// Numerically less: both are numbers and the first value is the smaller.
    pub open spec fn precedes(self, other: Weight) -> bool {
        !self.is_nan() && !other.is_nan() && self.scaled() < other.scaled()
    }

    /// Numerically equal: both are numbers of one value. The two zeros are
    /// equal, and what is not a number equals nothing.
    pub open spec fn matches(self, other: Weight) -> bool {
        !self.is_nan() && !other.is_nan() && self.scaled() == other.scaled()
    }

    /// How two weights stand to each other as numbers, if both are numbers.
    pub open spec fn compare(self, other: Weight) -> Option<Ordering> {
        if self.precedes(other) {
            Some(Ordering::Less)
        } else if other.precedes(self) {
            Some(Ordering::Greater)
        } else if self.matches(other) {
            Some(Ordering::Equal)
        } else {
            None
        }
    }

    /// The weight with the given encoding.
    pub fn from_bits(bits: u32) -> (weight: Weight)
        ensures
            weight.bits == bits,
    {
        Weight { bits }
    }

    /// The weight's encoding.
    pub fn to_bits(self) -> (bits: u32)
        ensures
            bits == self.bits,
    {
        self.bits
    }

    fn nan(self) -> (r: bool)
        ensures
            r == self.is_nan(),
    {
        let body: u32 = self.bits % SIGN_BIT;
        body / FRACTION_SPAN == TOP_EXPONENT && body % FRACTION_SPAN != 0
    }

    /// Whether `self` is numerically less than `other`.
    pub fn less_than(self, other: Weight) -> (r: bool)
        ensures
            r == self.precedes(other),
    {
        if self.nan() || other.nan() {
            return false;
        }
        let a: u32 = self.bits % SIGN_BIT;
        let b: u32 = other.bits % SIGN_BIT;
        proof {
            lemma_magnitude_compares(self, other);
        }
        if self.bits >= SIGN_BIT {
            if other.bits >= SIGN_BIT {
                b < a
            } else {
                a != 0 || b != 0
            }
        } else {
            if other.bits >= SIGN_BIT {
                false
            } else {
                a < b
            }
        }
    }

    /// Whether `self` and `other` are numerically equal.
    pub fn equals(self, other: Weight) -> (r: bool)
        ensures
            r == self.matches(other),
    {
        if self.nan() || other.nan() {
            return false;
        }
        let a: u32 = self.bits % SIGN_BIT;
        let b: u32 = other.bits % SIGN_BIT;
        proof {
            lemma_magnitude_compares(self, other);
        }
        if a == 0 && b == 0 {
            true
        } else {
            self.bits == other.bits
        }
    }
}

/// `==` on weights is numerical equality, as it is on the numbers they encode.
impl PartialEq for Weight {
    fn eq(&self, other: &Weight) -> (r: bool) {
        self.equals(*other)
    }
}

impl PartialEqSpecImpl for Weight {
    open spec fn obeys_eq_spec() -> bool {
        true
    }

    open spec fn eq_spec(&self, other: &Weight) -> bool {
        self.matches(*other)
    }
}

/// Weights are ordered as the numbers they encode; what is not a number is
/// ordered against nothing.
impl PartialOrd for Weight {
    fn partial_cmp(&self, other: &Weight) -> (r: Option<Ordering>) {
        if self.less_than(*other) {
            Some(Ordering::Less)
        } else if other.less_than(*self) {
            Some(Ordering::Greater)
        } else if self.equals(*other) {
            Some(Ordering::Equal)
        } else {
            None
        }
    }
}

impl PartialOrdSpecImpl for Weight {
    open spec fn obeys_partial_cmp_spec() -> bool {
        true
    }

    open spec fn partial_cmp_spec(&self, other: &Weight) -> Option<Ordering> {
        self.compare(*other)
    }
}

/// Only the zero pattern has magnitude zero.
pub proof fn lemma_magnitude_zero(a: Weight)
    ensures
        a.magnitude() == 0 <==> a.body() == 0,
{
    let e = a.exponent();
    let f = a.fraction();
    if e != 0 {
        let p = pow2((e - 1) as nat);
        lemma_pow2_pos((e - 1) as nat);
        assert((FRACTION_SPAN + f) * p > 0) by (nonlinear_arith)
            requires
                p > 0,
                f >= 0,
        ;
    }
}

/// Without the sign, a larger encoding is a larger magnitude: the encodings
/// of the non-negative numbers are in the order of the numbers.
pub proof fn lemma_magnitude_order(a: Weight, b: Weight)
    requires
        a.body() < b.body(),
    ensures
        a.magnitude() < b.magnitude(),
{
    let span = FRACTION_SPAN as nat;
    let ea = a.exponent();
    let eb = b.exponent();
    let fa = a.fraction();
    let fb = b.fraction();
    assert(ea <= eb) by (nonlinear_arith)
        requires
            ea * span + fa < eb * span + fb,
            fa < span,
            fb < span,
            span > 0,
    ;
    if ea == eb {
        if ea != 0 {
            let p = pow2((ea - 1) as nat);
            lemma_pow2_pos((ea - 1) as nat);
            assert((span + fa) * p < (span + fb) * p) by (nonlinear_arith)
                requires
                    fa < fb,
                    p > 0,
            ;
        }
    } else {
        let q = pow2((eb - 1) as nat);
        lemma_pow2_pos((eb - 1) as nat);
        assert(span * q <= (span + fb) * q) by (nonlinear_arith)
            requires
                q > 0,
                fb >= 0,
        ;
        if ea == 0 {
            assert(span * 1 <= span * q) by (nonlinear_arith)
                requires
                    q >= 1,
            ;
        } else {
            let p = pow2((ea - 1) as nat);
            lemma_pow2_pos((ea - 1) as nat);
            lemma_pow2_unfold(ea);
            if ea < eb - 1 {
                lemma_pow2_strictly_increases(ea, (eb - 1) as nat);
            }
            assert((span + fa) * p < span * q) by (nonlinear_arith)
                requires
                    fa < span,
                    2 * p <= q,
                    p > 0,
            ;
        }
    }
}

/// Without the sign, two encodings compare as their magnitudes do, and only
/// the zero pattern has magnitude zero.
pub proof fn lemma_magnitude_compares(a: Weight, b: Weight)
    ensures
        a.body() < b.body() <==> a.magnitude() < b.magnitude(),
        a.body() == b.body() <==> a.magnitude() == b.magnitude(),
        a.body() == 0 <==> a.magnitude() == 0,
        b.body() == 0 <==> b.magnitude() == 0,
{
    lemma_magnitude_zero(a);
    lemma_magnitude_zero(b);
    if a.body() < b.body() {
        lemma_magnitude_order(a, b);
    }
    if b.body() < a.body() {
        lemma_magnitude_order(b, a);
    }
}

} // verus!
