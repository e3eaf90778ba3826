//! Similarity scores.
//!
//! A score is a single-precision IEEE 754 number, held as its bit pattern so
//! that every comparison is integer arithmetic. Bit 31 is the sign, the low 31
//! bits are the magnitude (exponent and fraction). Among numbers of one sign a
//! larger magnitude is further from zero, both zeros are equal, and a magnitude
//! above that of infinity is not a number and compares false with everything.
//!
//! The magnitude of a finite number is its exponent field `e` times 2^23 plus
//! its fraction field `f`. Its absolute value is `f * 2^-149` where `e` is 0,
//! and `(2^23 + f) * 2^(e - 150)` elsewhere.

use vstd::arithmetic::power2::{
    lemma_pow2_pos, lemma_pow2_strictly_increases, lemma_pow2_unfold, pow2,
};
use vstd::prelude::*;

verus! {

/// The sign bit of a bit pattern.
pub const SIGN_BIT: u32 = 0x8000_0000;

/// The magnitude of infinity; every larger magnitude is not a number.
pub const INFINITY_MAGNITUDE: u32 = 0x7f80_0000;

/// Two to the number of fraction bits: the weight of the exponent field
/// within a magnitude.
pub const FRACTION_RANGE: u32 = 0x0080_0000;

/// The bit pattern of 1.0, the score of a perfect match.
pub const ONE_BITS: u32 = 0x3f80_0000;

/// The absolute value, times 2^149, of the finite number with the given
/// magnitude.
pub open spec fn scaled_size(magnitude: int) -> int {
    let exponent = magnitude / (FRACTION_RANGE as int);
    let fraction = magnitude % (FRACTION_RANGE as int);
    if exponent == 0 {
        fraction
    } else {
        (FRACTION_RANGE + fraction) * pow2((exponent - 1) as nat)
    }
}

/// A similarity score or a threshold, as the bit pattern of a single-precision
/// number.
#[derive(Clone, Copy, Debug, PartialEq, Eq, Structural)]
pub struct Score {
    bits: u32,
}

impl Score {
    /// The bit pattern.
    pub closed spec fn bits(self) -> u32 {
        self.bits
    }

    /// The low 31 bits: exponent and fraction.
    pub open spec fn magnitude(self) -> int {
        if self.bits() >= SIGN_BIT {
            self.bits() - SIGN_BIT
        } else {
            self.bits() as int
        }
    }

    /// Whether the sign bit is set.
    pub open spec fn negative(self) -> bool {
        self.bits() >= SIGN_BIT
    }

    /// Whether the pattern is not a number.
    pub open spec fn nan(self) -> bool {
        self.magnitude() > INFINITY_MAGNITUDE
    }

    /// An integer that orders the numbers as their values do: the magnitude,
    /// negated under a set sign bit. Both zeros have key 0.
    pub open spec fn key(self) -> int {
        if self.negative() {
            -self.magnitude()
        } else {
            self.magnitude()
        }
    }

    /// Whether the pattern is a finite number.
    pub open spec fn finite(self) -> bool {
        self.magnitude() < INFINITY_MAGNITUDE
    }

    /// The value of a finite number, times 2^149.
    pub open spec fn scaled_value(self) -> int {
        if self.negative() {
            -scaled_size(self.magnitude())
        } else {
            scaled_size(self.magnitude())
        }
    }

    /// `self > other` as numbers: false when either is not a number.
    pub open spec fn exceeds(self, other: Score) -> bool {
        !self.nan() && !other.nan() && self.key() > other.key()
    }

    /// `self == other` as numbers: false when either is not a number, true of
    /// the two zeros.
    pub open spec fn same_value(self, other: Score) -> bool {
        !self.nan() && !other.nan() && self.key() == other.key()
    }

    /// Whether the score lies in the closed range from 0.0 to 1.0.
    pub open spec fn in_unit_range(self) -> bool {
        !self.nan() && 0 <= self.key() <= ONE_BITS
    }

    /// The score with the given bit pattern.
    pub fn from_bits(bits: u32) -> (s: Score)
        ensures
            s.bits() == bits,
    {
        Score { bits }
    }

    /// The bit pattern of the score.
    pub fn to_bits(&self) -> (bits: u32)
        ensures
            bits == self.bits(),
    {
        self.bits
    }

    /// Whether the score is not a number.
    pub fn is_nan(&self) -> (r: bool)
        ensures
            r == self.nan(),
    {
        if self.bits >= SIGN_BIT {
            self.bits - SIGN_BIT > INFINITY_MAGNITUDE
        } else {
            self.bits > INFINITY_MAGNITUDE
        }
    }

    /// The ordering key of the score.
    pub fn rank(&self) -> (k: i64)
        ensures
            k == self.key(),
    {
        if self.bits >= SIGN_BIT {
            -((self.bits - SIGN_BIT) as i64)
        } else {
            self.bits as i64
        }
    }

    /// Whether `self` is strictly greater than `other`, as numbers.
    pub fn gt(&self, other: &Score) -> (r: bool)
        ensures
            r == self.exceeds(*other),
    {
        !self.is_nan() && !other.is_nan() && self.rank() > other.rank()
    }
}

/// A larger magnitude is a larger absolute value.
pub proof fn lemma_scaled_size_increases(low: int, high: int)
    requires
        0 <= low < high,
    ensures
        0 <= scaled_size(low) < scaled_size(high),
{
    let unit = FRACTION_RANGE as int;
    let e1 = low / unit;
    let f1 = low % unit;
    let e2 = high / unit;
    let f2 = high % unit;
    assert(low == unit * e1 + f1 && 0 <= f1 < unit && e1 >= 0);
    assert(high == unit * e2 + f2 && 0 <= f2 < unit);
    assert(e1 <= e2);
    if e1 > 0 {
        lemma_pow2_pos((e1 - 1) as nat);
    }
    lemma_pow2_pos((e2 - 1) as nat);
    if e1 == e2 {
        if e1 > 0 {
            let p = pow2((e1 - 1) as nat) as int;
            assert(0 <= (unit + f1) * p < (unit + f2) * p) by (nonlinear_arith)
                requires
                    0 <= f1 < f2,
                    unit > 0,
                    p > 0,
            ;
        }
    } else {
        let q = pow2((e2 - 1) as nat) as int;
        assert(unit * q <= (unit + f2) * q) by (nonlinear_arith)
            requires
                0 <= f2,
                q > 0,
        ;
        if e1 == 0 {
            assert(unit <= unit * q) by (nonlinear_arith)
                requires
                    unit > 0,
                    q >= 1,
            ;
        } else {
            let p = pow2((e1 - 1) as nat) as int;
            lemma_pow2_unfold(e1 as nat);
            if e1 < e2 - 1 {
                lemma_pow2_strictly_increases(e1 as nat, (e2 - 1) as nat);
            }
            assert(pow2(e1 as nat) <= q);
            assert(0 <= (unit + f1) * p < unit * (2 * p)) by (nonlinear_arith)
                requires
                    0 <= f1 < unit,
                    p > 0,
            ;
            assert(unit * (2 * p) <= unit * q) by (nonlinear_arith)
                requires
                    2 * p <= q,
                    unit > 0,
            ;
        }
    }
}

/// The key orders finite numbers as their values do: a smaller key is a
/// smaller value, and equal keys are equal values.
pub proof fn lemma_key_orders_as_values(a: Score, b: Score)
    requires
        a.finite(),
        b.finite(),
    ensures
        a.key() < b.key() <==> a.scaled_value() < b.scaled_value(),
        a.key() == b.key() <==> a.scaled_value() == b.scaled_value(),
        a.exceeds(b) <==> a.scaled_value() > b.scaled_value(),
{
    let m = a.magnitude();
    let n = b.magnitude();
    assert(scaled_size(0) == 0);
    if m < n {
        lemma_scaled_size_increases(m, n);
    } else if n < m {
        lemma_scaled_size_increases(n, m);
    }
    if 0 < m {
        lemma_scaled_size_increases(0, m);
    }
    if 0 < n {
        lemma_scaled_size_increases(0, n);
    }
}

/// Infinity is greater than every finite number, and every finite number is
/// greater than negative infinity.
pub proof fn lemma_infinities_bound_the_finite(a: Score, infinity: Score)
    requires
        a.finite(),
        infinity.magnitude() == INFINITY_MAGNITUDE,
    ensures
        !infinity.negative() ==> infinity.exceeds(a),
        infinity.negative() ==> a.exceeds(infinity),
{
}

} // verus!
