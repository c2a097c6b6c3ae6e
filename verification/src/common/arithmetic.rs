//! Arithmetic on binary32 numbers: conversion from whole numbers, product
//! and sum, each rounded to nearest and to even as IEEE 754 asks.
//!
//! Every NaN that comes out is the one quiet NaN with a clear sign bit.

use vstd::prelude::*;
use vstd::arithmetic::power2::*;
use vstd::arithmetic::mul::*;
use vstd::bits::*;
use vstd::std_specs::ops::{AddSpecImpl, MulSpecImpl};
use crate::common::float::{
    Float32,
    HIDDEN_BIT,
    INFINITY_BITS,
    ONE_BITS,
    QUIET_NAN_BITS,
    SIGN_BIT,
    UNIT_SCALE,
    magnitude_units,
    scale_of,
    significand_of,
    split_magnitude,
};
use crate::common::rounding::{
    bit_length,
    gap,
    lemma_bit_length_bounds,
    lemma_kept_digits_range,
    lemma_round_magnitude_absorbs,
    lemma_round_magnitude_is_nearest,
    lemma_round_magnitude_keeps_value,
    lemma_round_magnitude_of_parts,
    lemma_round_magnitude_overflows,
    lemma_round_magnitude_scaled,
    quantum,
    round_magnitude,
    round_to_magnitude,
};

verus! {

impl Float32 {
    /// The quiet NaN.
    pub open spec fn quiet_nan() -> Float32 {
        Float32 { bits: QUIET_NAN_BITS }
    }

    /// The number nearest to the whole number `n`.
    pub open spec fn of_nat(n: nat) -> Float32 {
        Float32::from_parts(false, round_magnitude(n, UNIT_SCALE as int))
    }

    /// The product of two numbers. It is a NaN where either is one and where
    /// a zero meets an infinity; its sign is negative where exactly one sign
    /// is; its magnitude is infinite where either is, and else the product
    /// of the two values, rounded.
    pub open spec fn product(self, rhs: Float32) -> Float32 {
        if self.is_nan() || rhs.is_nan() || (self.is_infinite() && rhs.is_zero()) || (
        self.is_zero() && rhs.is_infinite()) {
            Float32::quiet_nan()
        } else if self.is_infinite() || rhs.is_infinite() {
            Float32::from_parts(self.is_negative() != rhs.is_negative(), INFINITY_BITS as nat)
        } else {
            Float32::from_parts(
                self.is_negative() != rhs.is_negative(),
                round_magnitude(
                    self.significand() * rhs.significand(),
                    self.scale() + rhs.scale() - UNIT_SCALE,
                ),
            )
        }
    }

    /// The number nearest to `units` steps of 2^-149. A zero takes the sign
    /// that is handed in.
    pub open spec fn of_units(units: int, negative_zero: bool) -> Float32 {
        if units == 0 {
            Float32::from_parts(negative_zero, 0)
        } else if units < 0 {
            Float32::from_parts(true, round_magnitude((-units) as nat, 0))
        } else {
            Float32::from_parts(false, round_magnitude(units as nat, 0))
        }
    }

    /// The sum of two numbers. It is a NaN where either is one and where two
    /// infinities of opposite signs meet; it is the infinity where one is
    /// there; and else the sum of the two values, rounded. A sum of zero is
    /// negative only where both numbers are.
    pub open spec fn sum(self, rhs: Float32) -> Float32 {
        if self.is_nan() || rhs.is_nan() || (self.is_infinite() && rhs.is_infinite()
            && self.is_negative() != rhs.is_negative()) {
            Float32::quiet_nan()
        } else if self.is_infinite() {
            self
        } else if rhs.is_infinite() {
            rhs
        } else {
            Float32::of_units(
                self.units() + rhs.units(),
                self.is_negative() && rhs.is_negative(),
            )
        }
    }

    fn assemble(negative: bool, magnitude: u32) -> (r: Float32)
        requires
            magnitude < SIGN_BIT,
        ensures
            r == Float32::from_parts(negative, magnitude as nat),
            r.is_negative() == negative,
            r.magnitude() == magnitude,
    {
        if negative {
            Float32 { bits: magnitude + SIGN_BIT }
        } else {
            Float32 { bits: magnitude }
        }
    }

    /// The number nearest to `n`: `n` itself where it has at most
    /// twenty-four binary digits.
    pub fn from_u32(n: u32) -> (r: Float32)
        ensures
            r == Float32::of_nat(n as nat),
            r.is_finite(),
            !r.is_negative(),
    {
        let magnitude: u32 = round_to_magnitude(n as u64, 149);
        proof {
            lemma_of_nat_in_range(n as nat);
        }
        Float32::assemble(false, magnitude)
    }

    /// One.
    pub fn one() -> (r: Float32)
        ensures
            r.bits == ONE_BITS,
    {
        Float32 { bits: ONE_BITS }
    }
}

impl core::ops::Mul for Float32 {
    type Output = Float32;

    /// The product, rounded to nearest and to even.
    fn mul(self, rhs: Float32) -> (r: Float32) {
        let a: u32 = self.to_magnitude();
        let b: u32 = rhs.to_magnitude();
        let negative: bool = self.sign_negative() != rhs.sign_negative();
        if a > INFINITY_BITS || b > INFINITY_BITS || (a == INFINITY_BITS && b == 0) || (a == 0 && b
            == INFINITY_BITS) {
            Float32 { bits: QUIET_NAN_BITS }
        } else if a == INFINITY_BITS || b == INFINITY_BITS {
            Float32::assemble(negative, INFINITY_BITS)
        } else {
            let (sig_a, scale_a) = split_magnitude(a);
            let (sig_b, scale_b) = split_magnitude(b);
            assert(sig_a * sig_b < 0x1_0000_0000_0000) by (nonlinear_arith)
                requires
                    sig_a < 0x100_0000,
                    sig_b < 0x100_0000,
            ;
            let digits: u64 = (sig_a as u64) * (sig_b as u64);
            let e: i32 = scale_a as i32 + scale_b as i32 - 149;
            Float32::assemble(negative, round_to_magnitude(digits, e))
        }
    }
}

impl MulSpecImpl for Float32 {
    open spec fn obeys_mul_spec() -> bool {
        true
    }

    open spec fn mul_req(self, rhs: Float32) -> bool {
        true
    }

    open spec fn mul_spec(self, rhs: Float32) -> Float32 {
        self.product(rhs)
    }
}

/// The number nearest to a whole number below 2^32 is finite.
pub proof fn lemma_of_nat_in_range(n: nat)
    requires
        n < 0x1_0000_0000,
    ensures
        round_magnitude(n, UNIT_SCALE as int) < INFINITY_BITS,
{
    if n > 0 {
        lemma_bit_length_bounds(n);
        lemma2_to64();
        if bit_length(n) > 32 {
            lemma_pow2_strictly_increases(32, (bit_length(n) - 1) as nat);
        }
        lemma_kept_digits_range(n, UNIT_SCALE as int);
        let q = quantum(n, UNIT_SCALE as int);
        assert(q * (HIDDEN_BIT as nat) <= 157 * 0x80_0000) by (nonlinear_arith)
            requires
                q <= 157,
                HIDDEN_BIT == 0x80_0000,
        ;
    }
}

/// A whole number of at most twenty-four binary digits converts exactly.
pub proof fn lemma_of_nat_exact(n: nat)
    requires
        n < 2 * HIDDEN_BIT,
    ensures
        Float32::of_nat(n).is_finite(),
        !Float32::of_nat(n).is_negative(),
        Float32::of_nat(n).units() == n * pow2(UNIT_SCALE as nat),
{
    lemma_of_nat_in_range(n);
    if n == 0 {
        lemma_mul_basics(pow2(0) as int);
        lemma_mul_basics(pow2(UNIT_SCALE as nat) as int);
    } else {
        lemma_bit_length_bounds(n);
        lemma2_to64();
        if bit_length(n) > 24 {
            lemma_pow2_strictly_increases(24, (bit_length(n) - 1) as nat);
        }
        lemma_round_magnitude_keeps_value(n, UNIT_SCALE as nat);
    }
}

/// The product does not depend on the order of its factors.
pub proof fn lemma_product_commutes(a: Float32, b: Float32)
    ensures
        a.product(b) == b.product(a),
{
    lemma_mul_is_commutative(a.significand() as int, b.significand() as int);
}

/// Multiplying by one changes nothing, on any number but a NaN.
pub proof fn lemma_product_by_one(a: Float32, one: Float32)
    requires
        one.bits == ONE_BITS,
        !a.is_nan(),
    ensures
        a.product(one) == a,
{
    if a.is_finite() {
        lemma2_to64();
        assert(significand_of(ONE_BITS as nat) == HIDDEN_BIT);
        assert(scale_of(ONE_BITS as nat) == 126);
        lemma_round_magnitude_scaled(a.significand(), 23, a.scale() - 23);
        lemma_round_magnitude_of_parts(a.magnitude());
    }
}

/// Multiplying a finite number by a zero gives a zero.
pub proof fn lemma_product_by_zero(a: Float32, zero: Float32)
    requires
        zero.is_zero(),
        a.is_finite(),
    ensures
        a.product(zero).is_zero(),
        a.product(zero).is_negative() == (a.is_negative() != zero.is_negative()),
{
    lemma_mul_basics(a.significand() as int);
}

/// The sum of a number of magnitude `a` and one of magnitude `b`, no larger.
fn add_ordered(a: u32, a_negative: bool, b: u32, b_negative: bool) -> (r: Float32)
    requires
        b <= a < INFINITY_BITS,
    ensures
        r == Float32::from_parts(a_negative, a as nat).sum(
            Float32::from_parts(b_negative, b as nat),
        ),
{
    let (sig_a, scale_a) = split_magnitude(a);
    let (sig_b, scale_b) = split_magnitude(b);
    let d: u32 = scale_a - scale_b;
    let opposite: bool = a_negative != b_negative;
    let ghost x = Float32::from_parts(a_negative, a as nat);
    let ghost y = Float32::from_parts(b_negative, b as nat);
    let ghost step = pow2(scale_b as nat);
    proof {
        lemma_pow2_pos(scale_b as nat);
        lemma_pow2_adds(d as nat, scale_b as nat);
        lemma_mul_is_associative(sig_a as int, pow2(d as nat) as int, step as int);
        assert(x.magnitude() == a && y.magnitude() == b);
        assert(x.is_negative() == a_negative && y.is_negative() == b_negative);
    }
    if d > 26 {
        proof {
            let near: nat = (sig_a as nat) * pow2(d as nat);
            lemma_round_magnitude_absorbs(
                sig_a as nat,
                d as nat,
                sig_b as nat,
                scale_b as nat,
                opposite,
            );
            let digits: nat = if opposite {
                (near - sig_b) as nat
            } else {
                near + sig_b as nat
            };
            lemma_round_magnitude_scaled(digits, scale_b as nat, 0);
            lemma_mul_strictly_positive(digits as int, step as int);
            assert((opposite ==> digits * step == near * step - sig_b * step) && (!opposite
                ==> digits * step == near * step + sig_b * step)) by (nonlinear_arith)
                requires
                    opposite ==> digits == near - sig_b,
                    !opposite ==> digits == near + sig_b,
            ;
            assert(a == scale_a * (HIDDEN_BIT as nat) + sig_a);
        }
        return Float32::assemble(a_negative, a);
    }
    proof {
        lemma2_to64();
        if d < 26 {
            lemma_pow2_strictly_increases(d as nat, 26);
        }
        lemma_mul_strict_inequality(sig_a as int, 0x100_0000, pow2(d as nat) as int);
        lemma_mul_inequality(pow2(d as nat) as int, pow2(26) as int, 0x100_0000);
        lemma_mul_is_commutative(pow2(d as nat) as int, 0x100_0000);
        lemma_u64_shl_is_mul(sig_a as u64, d as u64);
        if d > 0 {
            lemma_pow2_unfold(d as nat);
            lemma_pow2_pos((d - 1) as nat);
            lemma_mul_inequality(2, pow2(d as nat) as int, sig_a as int);
            lemma_mul_is_commutative(pow2(d as nat) as int, sig_a as int);
        } else {
            lemma_mul_basics(sig_a as int);
        }
    }
    let high: u64 = (sig_a as u64) << (d as u64);
    let low: u64 = sig_b as u64;
    assert(high >= low);
    let digits: u64 = if opposite {
        high - low
    } else {
        high + low
    };
    proof {
        assert((opposite ==> digits * step == high * step - low * step) && (!opposite
            ==> digits * step == high * step + low * step)) by (nonlinear_arith)
            requires
                opposite ==> digits == high - low,
                !opposite ==> digits == high + low,
        ;
        lemma_round_magnitude_scaled(digits as nat, scale_b as nat, 0);
        if digits > 0 {
            lemma_mul_strictly_positive(digits as int, step as int);
        } else {
            lemma_mul_basics(step as int);
        }
    }
    if digits == 0 {
        Float32::assemble(a_negative && b_negative, 0)
    } else {
        Float32::assemble(a_negative, round_to_magnitude(digits, scale_b as i32))
    }
}

impl core::ops::Add for Float32 {
    type Output = Float32;

    /// The sum, rounded to nearest and to even.
    fn add(self, rhs: Float32) -> (r: Float32) {
        let a: u32 = self.to_magnitude();
        let b: u32 = rhs.to_magnitude();
        let a_negative: bool = self.sign_negative();
        let b_negative: bool = rhs.sign_negative();
        if a > INFINITY_BITS || b > INFINITY_BITS || (a == INFINITY_BITS && b == INFINITY_BITS
            && a_negative != b_negative) {
            Float32 { bits: QUIET_NAN_BITS }
        } else if a == INFINITY_BITS {
            self
        } else if b == INFINITY_BITS {
            rhs
        } else if a >= b {
            add_ordered(a, a_negative, b, b_negative)
        } else {
            proof {
                lemma_sum_commutes(self, rhs);
            }
            add_ordered(b, b_negative, a, a_negative)
        }
    }
}

impl AddSpecImpl for Float32 {
    open spec fn obeys_add_spec() -> bool {
        true
    }

    open spec fn add_req(self, rhs: Float32) -> bool {
        true
    }

    open spec fn add_spec(self, rhs: Float32) -> Float32 {
        self.sum(rhs)
    }
}

/// The sum does not depend on the order of its terms.
pub proof fn lemma_sum_commutes(a: Float32, b: Float32)
    ensures
        a.sum(b) == b.sum(a),
{
    if a.is_infinite() && b.is_infinite() && a.is_negative() == b.is_negative() {
        assert(a.bits == b.bits);
    }
}

/// Adding a zero changes no number: what comes out equals what went in, as
/// numbers do. (The bits differ in one case: negative zero plus positive
/// zero is positive zero.)
pub proof fn lemma_sum_with_zero(a: Float32, zero: Float32)
    requires
        zero.is_zero(),
        !a.is_nan(),
    ensures
        a.sum(zero).same_number(a),
        !a.is_zero() ==> a.sum(zero) == a,
{
    lemma_mul_basics(pow2(0) as int);
    assert(zero.units() == 0);
    if a.is_finite() {
        lemma_sum_exact(a, zero, a);
    }
}

/// Rounding sees the value only: two ways of writing one value round alike.
pub proof fn lemma_round_magnitude_of_value(n: nat, e: int, m: nat, f: int)
    requires
        e <= f,
        n == m * pow2((f - e) as nat),
    ensures
        round_magnitude(n, e) == round_magnitude(m, f),
{
    lemma_round_magnitude_scaled(m, (f - e) as nat, e);
}

/// The product is exact wherever it can be: if the product of the two
/// values is itself the value of a binary32 number, that number comes out.
pub proof fn lemma_product_exact(a: Float32, b: Float32, c: Float32)
    requires
        a.is_finite(),
        b.is_finite(),
        c.is_finite(),
        magnitude_units(c.magnitude()) * pow2(UNIT_SCALE as nat) == magnitude_units(a.magnitude())
            * magnitude_units(b.magnitude()),
    ensures
        a.product(b).magnitude() == c.magnitude(),
        a.product(b).is_negative() == (a.is_negative() != b.is_negative()),
{
    let sa = a.significand();
    let sb = b.significand();
    let sc = c.significand();
    let ea = a.scale();
    let eb = b.scale();
    let ec = c.scale();
    let digits = sa * sb;
    let e = ea + eb - UNIT_SCALE;
    lemma_pow2_adds(ea, eb);
    lemma_pow2_adds(ec, UNIT_SCALE as nat);
    assert(digits * pow2(ea + eb) == sc * pow2(ec + UNIT_SCALE as nat)) by (nonlinear_arith)
        requires
            (sc * pow2(ec)) * pow2(UNIT_SCALE as nat) == (sa * pow2(ea)) * (sb * pow2(eb)),
            pow2(ea + eb) == pow2(ea) * pow2(eb),
            pow2(ec + UNIT_SCALE as nat) == pow2(ec) * pow2(UNIT_SCALE as nat),
            digits == sa * sb,
    ;
    lemma_round_magnitude_of_parts(c.magnitude());
    if e >= ec {
        let k = (e - ec) as nat;
        let low = pow2(ec + UNIT_SCALE as nat);
        lemma_pow2_adds(k, ec + UNIT_SCALE as nat);
        lemma_pow2_pos(ec + UNIT_SCALE as nat);
        assert(sc == digits * pow2(k)) by (nonlinear_arith)
            requires
                digits * pow2(ea + eb) == sc * low,
                pow2(ea + eb) == pow2(k) * low,
                low > 0,
        ;
        lemma_round_magnitude_of_value(sc, ec as int, digits, e);
    } else {
        let k = (ec - e) as nat;
        let low = pow2(ea + eb);
        lemma_pow2_adds(k, ea + eb);
        lemma_pow2_pos(ea + eb);
        assert(digits == sc * pow2(k)) by (nonlinear_arith)
            requires
                digits * low == sc * pow2(ec + UNIT_SCALE as nat),
                pow2(ec + UNIT_SCALE as nat) == pow2(k) * low,
                low > 0,
        ;
        lemma_round_magnitude_of_value(digits, e, sc, ec as int);
    }
}

/// A binary32 number is the nearest one to its own value.
pub proof fn lemma_of_units_exact(c: Float32, negative_zero: bool)
    requires
        c.is_finite(),
        !c.is_zero(),
    ensures
        Float32::of_units(c.units(), negative_zero) == c,
{
    let m = c.magnitude();
    lemma_round_magnitude_of_parts(m);
    lemma_round_magnitude_scaled(significand_of(m), scale_of(m), 0);
    lemma_pow2_pos(scale_of(m));
    assert(significand_of(m) > 0);
    lemma_mul_strictly_positive(significand_of(m) as int, pow2(scale_of(m)) as int);
}

/// The sum is exact wherever it can be: if the sum of the two values is
/// itself the value of a binary32 number, that number comes out (as a
/// number: a zero may come out with the other sign).
pub proof fn lemma_sum_exact(a: Float32, b: Float32, c: Float32)
    requires
        a.is_finite(),
        b.is_finite(),
        c.is_finite(),
        a.units() + b.units() == c.units(),
    ensures
        a.sum(b).same_number(c),
        !c.is_zero() ==> a.sum(b) == c,
{
    lemma_mul_basics(pow2(0) as int);
    if c.is_zero() {
        assert(c.units() == 0);
    } else {
        lemma_of_units_exact(c, a.is_negative() && b.is_negative());
    }
}

/// Addition is associative as long as it is exact: where neither `a + b`
/// nor `b + c` had to be rounded, `(a + b) + c` and `a + (b + c)` are the
/// same number.
pub proof fn lemma_sum_associates_when_exact(a: Float32, b: Float32, c: Float32)
    requires
        a.is_finite(),
        b.is_finite(),
        c.is_finite(),
        a.sum(b).is_finite(),
        b.sum(c).is_finite(),
        a.sum(b).units() == a.units() + b.units(),
        b.sum(c).units() == b.units() + c.units(),
    ensures
        a.sum(b).sum(c).bits == a.sum(b.sum(c)).bits || (a.sum(b).sum(c).is_zero() && a.sum(
            b.sum(c),
        ).is_zero()),
{
}

/// The whole number that comes out of a conversion is the binary32 number
/// nearest to the one that went in.
pub proof fn lemma_of_nat_is_nearest(n: nat, other: Float32)
    requires
        n < 0x1_0000_0000,
        other.is_finite(),
    ensures
        gap(Float32::of_nat(n).units(), (n * pow2(UNIT_SCALE as nat)) as int) <= gap(
            other.units(),
            (n * pow2(UNIT_SCALE as nat)) as int,
        ),
{
    lemma_of_nat_in_range(n);
    lemma_round_magnitude_is_nearest(n, UNIT_SCALE as int, 0, other.magnitude());
    lemma2_to64();
    lemma_mul_nonnegative(n as int, pow2(UNIT_SCALE as nat) as int);
}

/// The product is the binary32 number nearest to the product of the two
/// values, as long as it is finite: no finite `other` lies nearer. (The
/// product of two values counted in steps of 2^-149 counts steps of 2^-298,
/// so the numbers that are compared with it are scaled by 2^149.)
pub proof fn lemma_product_is_nearest(a: Float32, b: Float32, other: Float32)
    requires
        a.is_finite(),
        b.is_finite(),
        other.is_finite(),
        a.product(b).is_finite(),
    ensures
        gap(
            (magnitude_units(a.product(b).magnitude()) * pow2(UNIT_SCALE as nat)) as int,
            (magnitude_units(a.magnitude()) * magnitude_units(b.magnitude())) as int,
        ) <= gap(
            (magnitude_units(other.magnitude()) * pow2(UNIT_SCALE as nat)) as int,
            (magnitude_units(a.magnitude()) * magnitude_units(b.magnitude())) as int,
        ),
{
    let digits = a.significand() * b.significand();
    let e = a.scale() + b.scale() - UNIT_SCALE;
    lemma_pow2_adds(a.scale(), b.scale());
    assert(digits * pow2(a.scale() + b.scale()) == magnitude_units(a.magnitude())
        * magnitude_units(b.magnitude())) by (nonlinear_arith)
        requires
            digits == a.significand() * b.significand(),
            pow2(a.scale() + b.scale()) == pow2(a.scale()) * pow2(b.scale()),
            magnitude_units(a.magnitude()) == a.significand() * pow2(a.scale()),
            magnitude_units(b.magnitude()) == b.significand() * pow2(b.scale()),
    ;
    lemma_round_magnitude_is_nearest(digits, e, UNIT_SCALE as nat, other.magnitude());
}

/// The product of two finite numbers is infinite only where the product of
/// their values lies at least half a step beyond the greatest finite number.
pub proof fn lemma_product_overflows(a: Float32, b: Float32)
    requires
        a.is_finite(),
        b.is_finite(),
        a.product(b).is_infinite(),
    ensures
        2 * (magnitude_units(a.magnitude()) * magnitude_units(b.magnitude())) >= 0x1ff_ffff
            * pow2(253 + UNIT_SCALE as nat),
{
    let digits = a.significand() * b.significand();
    let e = a.scale() + b.scale() - UNIT_SCALE;
    lemma_pow2_adds(a.scale(), b.scale());
    assert(digits * pow2(a.scale() + b.scale()) == magnitude_units(a.magnitude())
        * magnitude_units(b.magnitude())) by (nonlinear_arith)
        requires
            digits == a.significand() * b.significand(),
            pow2(a.scale() + b.scale()) == pow2(a.scale()) * pow2(b.scale()),
            magnitude_units(a.magnitude()) == a.significand() * pow2(a.scale()),
            magnitude_units(b.magnitude()) == b.significand() * pow2(b.scale()),
    ;
    lemma_round_magnitude_overflows(digits, e, UNIT_SCALE as nat);
}

/// The sum is the binary32 number nearest to the sum of the two values, as
/// long as it is finite: no finite `other` lies nearer.
pub proof fn lemma_sum_is_nearest(a: Float32, b: Float32, other: Float32)
    requires
        a.is_finite(),
        b.is_finite(),
        other.is_finite(),
        a.sum(b).is_finite(),
    ensures
        gap(a.sum(b).units(), a.units() + b.units()) <= gap(other.units(), a.units() + b.units()),
{
    let total = a.units() + b.units();
    let size: nat = if total < 0 {
        (-total) as nat
    } else {
        total as nat
    };
    let rounded = round_magnitude(size, 0);
    lemma2_to64();
    lemma_mul_basics(pow2(0) as int);
    lemma_mul_basics(size as int);
    lemma_mul_basics(magnitude_units(rounded) as int);
    lemma_mul_basics(magnitude_units(other.magnitude()) as int);
    if total != 0 {
        lemma_round_magnitude_is_nearest(size, 0, 0, other.magnitude());
        assert(gap(magnitude_units(rounded) as int, size as int) <= gap(
            magnitude_units(other.magnitude()) as int,
            size as int,
        ));
    }
}

/// The sum of two finite numbers is infinite only where the sum of their
/// values lies at least half a step beyond the greatest finite number.
pub proof fn lemma_sum_overflows(a: Float32, b: Float32)
    requires
        a.is_finite(),
        b.is_finite(),
        a.sum(b).is_infinite(),
    ensures
        2 * gap(a.units() + b.units(), 0) >= 0x1ff_ffff * pow2(253),
{
    let total = a.units() + b.units();
    let size: nat = if total < 0 {
        (-total) as nat
    } else {
        total as nat
    };
    lemma2_to64();
    lemma_mul_basics(size as int);
    lemma_round_magnitude_overflows(size, 0, 0);
}

} // verus!
