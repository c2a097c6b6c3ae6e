//! IEEE 754 single-precision numbers, carried by their bit patterns.
//!
//! A [`Float32`] is the 32 bits of a binary32 number: one sign bit, eight
//! exponent bits, twenty-three fraction bits. Every finite binary32 number is
//! a whole number of steps of 2^-149, the smallest positive one, and
//! [`Float32::units`] is that whole number. Comparisons and arithmetic are
//! stated over it.

use vstd::prelude::*;
use vstd::arithmetic::power2::*;
use vstd::arithmetic::mul::*;
use vstd::bits::*;
use vstd::std_specs::cmp::PartialEqSpecImpl;

verus! {

/// The sign bit of a bit pattern.
pub const SIGN_BIT: u32 = 0x8000_0000;

/// The magnitude bits of infinity; every larger magnitude is a NaN.
pub const INFINITY_BITS: u32 = 0x7f80_0000;

/// The smallest magnitude with a non-zero exponent field: 2^23.
pub const HIDDEN_BIT: u32 = 0x0080_0000;

/// The magnitude bits of the one NaN that arithmetic here produces.
pub const QUIET_NAN_BITS: u32 = 0x7fc0_0000;

/// The magnitude bits of 1.0.
pub const ONE_BITS: u32 = 0x3f80_0000;

/// The number of steps of 2^-149 in 1.0, as a power of two.
pub const UNIT_SCALE: u32 = 149;

/// A binary32 number. Any 32 bits are one.
#[derive(Clone, Copy, Debug)]
pub struct Float32 {
    pub bits: u32,
}

/// The significand that a magnitude encodes: the fraction bits, with the
/// hidden bit on top unless the exponent field is zero.
pub open spec fn significand_of(magnitude: nat) -> nat {
    if magnitude < HIDDEN_BIT {
        magnitude
    } else {
        HIDDEN_BIT as nat + magnitude % (HIDDEN_BIT as nat)
    }
}

/// The power of two, in steps of 2^-149, that a magnitude's significand is
/// multiplied by.
pub open spec fn scale_of(magnitude: nat) -> nat {
    if magnitude < HIDDEN_BIT {
        0
    } else {
        (magnitude / (HIDDEN_BIT as nat) - 1) as nat
    }
}

/// The value of a finite magnitude, in steps of 2^-149.
pub open spec fn magnitude_units(magnitude: nat) -> nat {
    significand_of(magnitude) * pow2(scale_of(magnitude))
}

impl Float32 {
    /// Whether the sign bit is set (it can be on a zero and on a NaN too).
    pub open spec fn is_negative(self) -> bool {
        self.bits >= SIGN_BIT
    }

    /// The bits without the sign bit.
    pub open spec fn magnitude(self) -> nat {
        if self.bits >= SIGN_BIT {
            (self.bits - SIGN_BIT) as nat
        } else {
            self.bits as nat
        }
    }

    /// Not a number: what an operation without a meaning gives.
    pub open spec fn is_nan(self) -> bool {
        self.magnitude() > INFINITY_BITS
    }

    /// Positive or negative infinity.
    pub open spec fn is_infinite(self) -> bool {
        self.magnitude() == INFINITY_BITS
    }

    /// Zero, subnormal or normal.
    pub open spec fn is_finite(self) -> bool {
        self.magnitude() < INFINITY_BITS
    }

    /// Positive or negative zero.
    pub open spec fn is_zero(self) -> bool {
        self.magnitude() == 0
    }

    /// The significand of the number: see [`significand_of`].
    pub open spec fn significand(self) -> nat {
        significand_of(self.magnitude())
    }

    /// The scale of the number: see [`scale_of`].
    pub open spec fn scale(self) -> nat {
        scale_of(self.magnitude())
    }

    /// The value of a finite number, in steps of 2^-149. Both zeros are 0.
    pub open spec fn units(self) -> int {
        if self.is_negative() {
            -(magnitude_units(self.magnitude()) as int)
        } else {
            magnitude_units(self.magnitude()) as int
        }
    }

    /// The number with the given sign and magnitude bits.
    pub open spec fn from_parts(negative: bool, magnitude: nat) -> Float32 {
        Float32 {
            bits: if negative {
                (magnitude + SIGN_BIT) as u32
            } else {
                magnitude as u32
            },
        }
    }

    /// Strictly below the whole number `n`. A NaN is below nothing.
    pub open spec fn lt_int(self, n: int) -> bool {
        if self.is_nan() {
            false
        } else if self.is_infinite() {
            self.is_negative()
        } else {
            self.units() < n * pow2(UNIT_SCALE as nat)
        }
    }

    /// Strictly above the whole number `n`. A NaN is above nothing.
    pub open spec fn gt_int(self, n: int) -> bool {
        if self.is_nan() {
            false
        } else if self.is_infinite() {
            !self.is_negative()
        } else {
            self.units() > n * pow2(UNIT_SCALE as nat)
        }
    }

    /// Equality of numbers: a NaN equals nothing, the two zeros equal each
    /// other, and any other two are equal when their bits are.
    pub open spec fn same_number(self, other: Float32) -> bool {
        !self.is_nan() && !other.is_nan() && (self.bits == other.bits || (self.is_zero()
            && other.is_zero()))
    }
}

impl Float32 {
    /// The number with these bits.
    pub fn from_bits(bits: u32) -> (r: Float32)
        ensures
            r.bits == bits,
    {
        Float32 { bits }
    }

    /// The bits of the number.
    pub fn to_bits(&self) -> (bits: u32)
        ensures
            bits == self.bits,
    {
        self.bits
    }

    /// Positive zero.
    pub fn zero() -> (r: Float32)
        ensures
            r.bits == 0,
            r.is_zero(),
            !r.is_negative(),
            r.units() == 0,
    {
        proof {
            lemma_mul_basics(pow2(0) as int);
        }
        Float32 { bits: 0 }
    }

    /// The bits without the sign bit.
    pub fn to_magnitude(&self) -> (m: u32)
        ensures
            m == self.magnitude(),
            m < SIGN_BIT,
    {
        if self.bits >= SIGN_BIT {
            self.bits - SIGN_BIT
        } else {
            self.bits
        }
    }

    /// Whether the sign bit is set.
    pub fn sign_negative(&self) -> (r: bool)
        ensures
            r == self.is_negative(),
    {
        self.bits >= SIGN_BIT
    }

    /// Whether this is a NaN.
    pub fn nan(&self) -> (r: bool)
        ensures
            r == self.is_nan(),
    {
        self.to_magnitude() > INFINITY_BITS
    }

    /// Whether this is positive or negative infinity.
    pub fn infinite(&self) -> (r: bool)
        ensures
            r == self.is_infinite(),
    {
        self.to_magnitude() == INFINITY_BITS
    }

    /// Whether this is zero, subnormal or normal.
    pub fn finite(&self) -> (r: bool)
        ensures
            r == self.is_finite(),
    {
        self.to_magnitude() < INFINITY_BITS
    }
}

/// Where a number lies relative to another.
#[derive(Clone, Copy, PartialEq, Eq, Structural)]
enum Side {
    Below,
    Level,
    Above,
}

/// Multiplying both sides by a power of two keeps their order.
pub proof fn lemma_scaled_order(a: int, b: int, k: nat)
    ensures
        a * pow2(k) < b * pow2(k) <==> a < b,
        a * pow2(k) == b * pow2(k) <==> a == b,
{
    lemma_pow2_pos(k);
    let p: int = pow2(k) as int;
    assert((a * p < b * p <==> a < b) && (a * p == b * p <==> a == b)) by (nonlinear_arith)
        requires
            p > 0,
    ;
}

/// The significand and the scale of a finite magnitude.
pub(crate) fn split_magnitude(m: u32) -> (parts: (u32, u32))
    requires
        m < INFINITY_BITS,
    ensures
        parts.0 == significand_of(m as nat),
        parts.1 == scale_of(m as nat),
        parts.0 < 2 * HIDDEN_BIT,
        parts.1 <= 253,
        parts.1 > 0 ==> parts.0 >= HIDDEN_BIT,
        m < 2 * HIDDEN_BIT ==> parts.0 == m && parts.1 == 0,
{
    if m < HIDDEN_BIT {
        (m, 0)
    } else {
        (HIDDEN_BIT + m % HIDDEN_BIT, m / HIDDEN_BIT - 1)
    }
}

/// Where a finite magnitude lies relative to the whole number `n`.
fn magnitude_against(m: u32, n: u32) -> (side: Side)
    requires
        m < INFINITY_BITS,
    ensures
        side == Side::Below <==> magnitude_units(m as nat) < n * pow2(UNIT_SCALE as nat),
        side == Side::Above <==> magnitude_units(m as nat) > n * pow2(UNIT_SCALE as nat),
{
    let (sig, scale) = split_magnitude(m);
    if scale >= UNIT_SCALE {
        let up: u32 = scale - UNIT_SCALE;
        proof {
            lemma_pow2_adds(up as nat, UNIT_SCALE as nat);
            lemma_mul_is_associative(
                sig as int,
                pow2(up as nat) as int,
                pow2(UNIT_SCALE as nat) as int,
            );
            lemma_scaled_order(sig * pow2(up as nat), n as int, UNIT_SCALE as nat);
            lemma2_to64();
        }
        if up >= 9 {
            proof {
                if up > 9 {
                    lemma_pow2_strictly_increases(9, up as nat);
                }
                lemma_mul_inequality(pow2(9) as int, pow2(up as nat) as int, sig as int);
                lemma_mul_is_commutative(sig as int, pow2(up as nat) as int);
                lemma_mul_is_commutative(sig as int, pow2(9) as int);
            }
            Side::Above
        } else {
            proof {
                lemma_mul_inequality(pow2(up as nat) as int, pow2(8) as int, sig as int);
                lemma_mul_is_commutative(sig as int, pow2(up as nat) as int);
                lemma_mul_is_commutative(sig as int, pow2(8) as int);
                lemma_u64_shl_is_mul(sig as u64, up as u64);
            }
            let v: u64 = (sig as u64) << (up as u64);
            if v < n as u64 {
                Side::Below
            } else if v > n as u64 {
                Side::Above
            } else {
                Side::Level
            }
        }
    } else {
        let down: u32 = UNIT_SCALE - scale;
        proof {
            lemma_pow2_adds(down as nat, scale as nat);
            lemma_mul_is_associative(
                n as int,
                pow2(down as nat) as int,
                pow2(scale as nat) as int,
            );
            lemma_scaled_order(sig as int, n * pow2(down as nat), scale as nat);
            lemma2_to64();
        }
        if down >= 24 {
            proof {
                if down > 24 {
                    lemma_pow2_strictly_increases(24, down as nat);
                }
                lemma_mul_basics(pow2(down as nat) as int);
                if n > 0 {
                    lemma_mul_inequality(1, n as int, pow2(down as nat) as int);
                }
            }
            if n > 0 {
                Side::Below
            } else if sig > 0 {
                Side::Above
            } else {
                Side::Level
            }
        } else {
            proof {
                lemma_pow2_strictly_increases(down as nat, 24);
                lemma_mul_inequality(pow2(down as nat) as int, pow2(24) as int, n as int);
                lemma_mul_is_commutative(n as int, pow2(down as nat) as int);
                lemma_mul_is_commutative(n as int, pow2(24) as int);
                lemma_mul_upper_bound(n as int, 0x1_0000_0000, pow2(24) as int, 0x100_0000);
                lemma_u64_shl_is_mul(n as u64, down as u64);
            }
            let w: u64 = (n as u64) << (down as u64);
            if (sig as u64) < w {
                Side::Below
            } else if (sig as u64) > w {
                Side::Above
            } else {
                Side::Level
            }
        }
    }
}

impl Float32 {
    /// Whether the number is strictly below the whole number `n`.
    pub fn lt_u32(&self, n: u32) -> (r: bool)
        ensures
            r == self.lt_int(n as int),
    {
        let m: u32 = self.to_magnitude();
        if m > INFINITY_BITS {
            false
        } else if m == INFINITY_BITS {
            self.bits >= SIGN_BIT
        } else {
            let side = magnitude_against(m, n);
            proof {
                lemma_pow2_pos(UNIT_SCALE as nat);
                lemma_mul_basics(pow2(UNIT_SCALE as nat) as int);
                if n > 0 {
                    lemma_mul_strictly_positive(n as int, pow2(UNIT_SCALE as nat) as int);
                }
            }
            if self.bits >= SIGN_BIT {
                // a negative number is below every count but its own zero
                !(side == Side::Level && n == 0)
            } else {
                side == Side::Below
            }
        }
    }

    /// Whether the number is strictly above the whole number `n`.
    pub fn gt_u32(&self, n: u32) -> (r: bool)
        ensures
            r == self.gt_int(n as int),
    {
        let m: u32 = self.to_magnitude();
        if m > INFINITY_BITS {
            false
        } else if m == INFINITY_BITS {
            self.bits < SIGN_BIT
        } else if self.bits >= SIGN_BIT {
            proof {
                lemma_pow2_pos(UNIT_SCALE as nat);
                lemma_mul_nonnegative(n as int, pow2(UNIT_SCALE as nat) as int);
            }
            false
        } else {
            magnitude_against(m, n) == Side::Above
        }
    }
}

/// A number below `low` is not above any `high` that `low` does not exceed.
pub proof fn lemma_below_is_not_above(amount: Float32, low: int, high: int)
    requires
        low <= high,
    ensures
        !(amount.lt_int(low) && amount.gt_int(high)),
{
    let p = pow2(UNIT_SCALE as nat) as int;
    assert(low * p <= high * p) by (nonlinear_arith)
        requires
            low <= high,
            p >= 0,
    ;
}

impl PartialEq for Float32 {
    /// Equality of numbers, not of bits.
    fn eq(&self, other: &Float32) -> (r: bool) {
        let a: u32 = self.to_magnitude();
        let b: u32 = other.to_magnitude();
        a <= INFINITY_BITS && b <= INFINITY_BITS && (self.bits == other.bits || (a == 0 && b == 0))
    }
}

impl PartialEqSpecImpl for Float32 {
    open spec fn obeys_eq_spec() -> bool {
        true
    }

    open spec fn eq_spec(&self, other: &Float32) -> bool {
        self.same_number(*other)
    }
}

} // verus!
