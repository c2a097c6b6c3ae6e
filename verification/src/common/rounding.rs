//! Rounding a value to the nearest binary32 number.
//!
//! A value is given as `n * 2^e` steps of 2^-149, with `n` a natural number
//! and `e` an integer. A binary32 number keeps twenty-four binary digits of
//! it, or as many as lie at or above one step. The digits below are rounded
//! to nearest, and to the even neighbour where the value lies half-way.

use vstd::prelude::*;
use vstd::arithmetic::power2::*;
use vstd::arithmetic::mul::*;
use vstd::arithmetic::div_mod::*;
use vstd::bits::*;
use crate::common::float::{HIDDEN_BIT, INFINITY_BITS, magnitude_units, scale_of, significand_of};

verus! {

/// The number of binary digits of `n`; none for zero.
pub open spec fn bit_length(n: nat) -> nat
    decreases n,
{
    if n == 0 {
        0
    } else {
        1 + bit_length(n / 2)
    }
}

/// A positive number lies between the two powers of two that its number of
/// digits names.
pub proof fn lemma_bit_length_bounds(n: nat)
    requires
        n > 0,
    ensures
        bit_length(n) > 0,
        pow2((bit_length(n) - 1) as nat) <= n < pow2(bit_length(n)),
    decreases n,
{
    if n == 1 {
        assert(bit_length(1) == 1 + bit_length(0));
        lemma2_to64();
    } else {
        lemma_bit_length_bounds(n / 2);
        lemma_pow2_unfold(bit_length(n));
        lemma_pow2_unfold(bit_length(n / 2));
    }
}

/// The number of digits is the only `len` with `2^(len-1) <= n < 2^len`.
pub proof fn lemma_bit_length_unique(n: nat, len: nat)
    requires
        len > 0,
        pow2((len - 1) as nat) <= n < pow2(len),
    ensures
        bit_length(n) == len,
{
    lemma_pow2_pos((len - 1) as nat);
    lemma_bit_length_bounds(n);
    let actual = bit_length(n);
    if actual < len {
        if actual < len - 1 {
            lemma_pow2_strictly_increases(actual, (len - 1) as nat);
        }
    } else if actual > len {
        if actual - 1 > len {
            lemma_pow2_strictly_increases(len, (actual - 1) as nat);
        }
    }
}

/// The whole number nearest to `n / d`, and the even one of the two where
/// `n / d` lies half-way between them.
pub open spec fn round_half_even(n: nat, d: nat) -> nat {
    let quotient = n / d;
    let rest = n % d;
    if 2 * rest < d || (2 * rest == d && quotient % 2 == 0) {
        quotient
    } else {
        quotient + 1
    }
}

/// The power of two, in steps of 2^-149, of the last digit that a binary32
/// number keeps of `n * 2^e`.
pub open spec fn quantum(n: nat, e: int) -> nat {
    if bit_length(n) + e > 24 {
        (bit_length(n) + e - 24) as nat
    } else {
        0
    }
}

/// `n * 2^e` in multiples of its quantum, rounded.
pub open spec fn kept_digits(n: nat, e: int) -> nat {
    let q = quantum(n, e);
    if q <= e {
        n * pow2((e - q) as nat)
    } else {
        round_half_even(n, pow2((q - e) as nat))
    }
}

/// The magnitude bits of the binary32 number nearest to `n * 2^e` steps of
/// 2^-149: infinity where that is out of range.
///
/// The kept digits lie below 2^24 before rounding and reach at most 2^24
/// after it, so adding them to the quantum, which goes to the exponent
/// field, carries into that field exactly when rounding reaches the next
/// power of two.
pub open spec fn round_magnitude(n: nat, e: int) -> nat {
    if n == 0 {
        0
    } else {
        let bits = quantum(n, e) * (HIDDEN_BIT as nat) + kept_digits(n, e);
        if bits >= INFINITY_BITS {
            INFINITY_BITS as nat
        } else {
            bits
        }
    }
}

/// The number of binary digits of `n`.
fn bit_length_u64(n: u64) -> (len: u32)
    ensures
        len == bit_length(n as nat),
        len <= 64,
{
    let mut len: u32 = 0;
    let mut rest: u64 = n;
    proof {
        lemma2_to64();
        if n > 0 {
            lemma_bit_length_bounds(n as nat);
            if bit_length(n as nat) > 64 {
                lemma_pow2_strictly_increases(64, (bit_length(n as nat) - 1) as nat);
            }
        }
    }
    while rest != 0
        invariant
            len + bit_length(rest as nat) == bit_length(n as nat),
            bit_length(n as nat) <= 64,
        decreases rest,
    {
        rest = rest / 2;
        len = len + 1;
    }
    len
}

/// Two to the power `k`.
fn pow2_u64(k: u32) -> (p: u64)
    requires
        k < 64,
    ensures
        p == pow2(k as nat),
        p > 0,
{
    proof {
        lemma2_to64();
        if k < 63 {
            lemma_pow2_strictly_increases(k as nat, 63);
        }
        if k > 32 {
            lemma2_to64_rest();
        }
        lemma_pow2_pos(k as nat);
        lemma_u64_shl_is_mul(1, k as u64);
    }
    1u64 << (k as u64)
}

/// `n / 2^d`, rounded to nearest and to even.
fn shift_right_rounding(n: u64, d: u32) -> (r: u64)
    requires
        n < 0x8000_0000_0000_0000,
        d >= 1,
    ensures
        r == round_half_even(n as nat, pow2(d as nat)),
        r <= n,
{
    if d >= 64 {
        proof {
            lemma2_to64();
            if d > 64 {
                lemma_pow2_strictly_increases(64, d as nat);
            }
            lemma_basic_div(n as int, pow2(d as nat) as int);
            lemma_small_mod(n as nat, pow2(d as nat));
        }
        0
    } else {
        let p: u64 = pow2_u64(d);
        let quotient: u64 = n / p;
        let rest: u64 = n % p;
        proof {
            lemma_fundamental_div_mod(n as int, p as int);
            lemma_pow2_unfold(d as nat);
            lemma_pow2_pos((d - 1) as nat);
            assert(p >= 2);
            assert(quotient + 1 <= n || quotient == 0) by (nonlinear_arith)
                requires
                    n == p * quotient + rest,
                    p >= 2,
                    rest >= 0,
                    quotient >= 0,
            ;
            if quotient == 0 && 2 * rest >= p {
                assert(n == rest) by (nonlinear_arith)
                    requires
                        n == p * quotient + rest,
                        quotient == 0,
                ;
            }
        }
        if rest > p - rest || (rest == p - rest && quotient % 2 == 1) {
            quotient + 1
        } else {
            quotient
        }
    }
}

/// The magnitude bits of the binary32 number nearest to `n * 2^e` steps of
/// 2^-149.
pub(crate) fn round_to_magnitude(n: u64, e: i32) -> (bits: u32)
    requires
        n < 0x8000_0000_0000_0000,
        -1000 <= e <= 1000,
    ensures
        bits == round_magnitude(n as nat, e as int),
        bits <= INFINITY_BITS,
{
    if n == 0 {
        return 0;
    }
    let len: u32 = bit_length_u64(n);
    let top: i32 = len as i32 + e - 24;
    let q: i32 = if top > 0 {
        top
    } else {
        0
    };
    proof {
        lemma_bit_length_bounds(n as nat);
        lemma2_to64();
    }
    assert(q == quantum(n as nat, e as int));
    if q >= 255 {
        proof {
            let kept = kept_digits(n as nat, e as int);
            assert(q * (HIDDEN_BIT as nat) + kept >= INFINITY_BITS) by (nonlinear_arith)
                requires
                    q >= 255,
                    HIDDEN_BIT == 0x80_0000,
                    INFINITY_BITS == 0x7f80_0000,
                    kept >= 0,
            ;
        }
        return INFINITY_BITS;
    }
    let kept: u64 = if q <= e {
        let up: u32 = (e - q) as u32;
        proof {
            // n < 2^len and len + up <= 24
            lemma_pow2_adds(len as nat, up as nat);
            if len + up < 24 {
                lemma_pow2_strictly_increases((len + up) as nat, 24);
            }
            lemma_pow2_pos(up as nat);
            lemma_mul_strict_inequality(
                n as int,
                pow2(len as nat) as int,
                pow2(up as nat) as int,
            );
            lemma_u64_shl_is_mul(n, up as u64);
        }
        n << (up as u64)
    } else {
        let down: u32 = (q - e) as u32;
        proof {
            // n < 2^len and len <= 24 + down
            lemma_pow2_adds(24, down as nat);
            if len < 24 + down {
                lemma_pow2_strictly_increases(len as nat, (24 + down) as nat);
            }
            lemma_pow2_pos(down as nat);
            lemma_mul_is_commutative(pow2(24) as int, pow2(down as nat) as int);
            lemma_multiply_divide_lt(n as int, pow2(down as nat) as int, pow2(24) as int);
        }
        shift_right_rounding(n, down)
    };
    assert(kept == kept_digits(n as nat, e as int));
    assert(kept <= 0x100_0000);
    assert(q * (HIDDEN_BIT as nat) <= 254 * 0x80_0000) by (nonlinear_arith)
        requires
            0 <= q <= 254,
            HIDDEN_BIT == 0x80_0000,
    ;
    let bits: u32 = (q as u32) * HIDDEN_BIT + (kept as u32);
    if bits >= INFINITY_BITS {
        INFINITY_BITS
    } else {
        bits
    }
}

/// Multiplying by a power of two adds that power to the number of digits.
pub proof fn lemma_bit_length_scaled(n: nat, k: nat)
    requires
        n > 0,
    ensures
        bit_length(n * pow2(k)) == bit_length(n) + k,
{
    let len = bit_length(n);
    lemma_bit_length_bounds(n);
    lemma_pow2_pos(k);
    lemma_pow2_adds((len - 1) as nat, k);
    lemma_pow2_adds(len, k);
    lemma_mul_inequality(pow2((len - 1) as nat) as int, n as int, pow2(k) as int);
    lemma_mul_strict_inequality(n as int, pow2(len) as int, pow2(k) as int);
    lemma_bit_length_unique(n * pow2(k), len + k);
}

/// Rounding a quotient does not change when both sides are multiplied by
/// the same positive number.
pub proof fn lemma_round_half_even_scaled(n: nat, d: nat, c: nat)
    requires
        d > 0,
        c > 0,
    ensures
        round_half_even(n * c, d * c) == round_half_even(n, d),
{
    let quotient = n / d;
    let rest = n % d;
    lemma_fundamental_div_mod(n as int, d as int);
    lemma_mul_strictly_positive(d as int, c as int);
    assert(n * c == quotient * (d * c) + rest * c && 0 <= rest * c < d * c) by (nonlinear_arith)
        requires
            n == d * quotient + rest,
            0 <= rest < d,
            c > 0,
    ;
    lemma_fundamental_div_mod_converse(
        (n * c) as int,
        (d * c) as int,
        quotient as int,
        (rest * c) as int,
    );
    assert((2 * (rest * c) < d * c <==> 2 * rest < d) && (2 * (rest * c) == d * c <==> 2 * rest
        == d)) by (nonlinear_arith)
        requires
            c > 0,
    ;
}

/// A quotient that leaves no rest is its own rounding.
pub proof fn lemma_round_half_even_exact(m: nat, d: nat)
    requires
        d > 0,
    ensures
        round_half_even(m * d, d) == m,
{
    lemma_fundamental_div_mod_converse((m * d) as int, d as int, m as int, 0);
}

/// The kept digits reach at most 2^24, and at least 2^23 where the quantum
/// lies above one step.
pub proof fn lemma_kept_digits_range(n: nat, e: int)
    requires
        n > 0,
    ensures
        kept_digits(n, e) <= 2 * HIDDEN_BIT,
        quantum(n, e) > 0 ==> kept_digits(n, e) >= HIDDEN_BIT,
        quantum(n, e) > e ==> n / pow2((quantum(n, e) - e) as nat) < 2 * HIDDEN_BIT,
        quantum(n, e) <= e ==> kept_digits(n, e) < 2 * HIDDEN_BIT,
{
    let len = bit_length(n);
    let q = quantum(n, e);
    lemma_bit_length_bounds(n);
    lemma2_to64();
    if q <= e {
        let up = (e - q) as nat;
        lemma_pow2_pos(up);
        lemma_pow2_adds(len, up);
        lemma_mul_strict_inequality(n as int, pow2(len) as int, pow2(up) as int);
        if len + up < 24 {
            lemma_pow2_strictly_increases(len + up, 24);
        }
        if q > 0 {
            lemma_pow2_adds((len - 1) as nat, up);
            lemma_mul_inequality(pow2((len - 1) as nat) as int, n as int, pow2(up) as int);
        }
    } else {
        let down = (q - e) as nat;
        let d = pow2(down);
        lemma_pow2_pos(down);
        lemma_pow2_adds(24, down);
        if len < 24 + down {
            lemma_pow2_strictly_increases(len, 24 + down);
        }
        lemma_mul_is_commutative(pow2(24) as int, d as int);
        lemma_multiply_divide_lt(n as int, d as int, pow2(24) as int);
        if q > 0 {
            // here len - 1 == 23 + down
            lemma_pow2_adds(23, down);
            lemma_div_is_ordered((pow2(23) * d) as int, n as int, d as int);
            lemma_div_by_multiple(pow2(23) as int, d as int);
        }
    }
}

/// What the bits that rounding assembles stand for: the kept digits at the
/// quantum.
pub proof fn lemma_assembled_units(q: nat, kept: nat)
    requires
        kept <= 2 * HIDDEN_BIT,
        q > 0 ==> kept >= HIDDEN_BIT,
    ensures
        magnitude_units(q * (HIDDEN_BIT as nat) + kept) == kept * pow2(q),
{
    let h = HIDDEN_BIT as nat;
    let bits = q * h + kept;
    lemma2_to64();
    if q == 0 {
        if kept == 2 * h {
            assert(significand_of(bits) == h);
            assert(scale_of(bits) == 1);
            assert(magnitude_units(bits) == kept * pow2(q));
        } else {
            assert(significand_of(bits) == kept);
            assert(scale_of(bits) == 0);
            assert(magnitude_units(bits) == kept * pow2(q));
        }
    } else if kept == 2 * h {
        assert(bits == (q + 2) * h) by (nonlinear_arith)
            requires
                bits == q * h + kept,
                kept == 2 * h,
        ;
        lemma_fundamental_div_mod_converse(bits as int, h as int, (q + 2) as int, 0);
        assert(significand_of(bits) == h);
        assert(scale_of(bits) == q + 1);
        lemma_pow2_unfold(q + 1);
        assert(h * (2 * pow2(q)) == (2 * h) * pow2(q)) by (nonlinear_arith);
        assert(magnitude_units(bits) == kept * pow2(q));
    } else {
        assert(bits == (q + 1) * h + (kept - h)) by (nonlinear_arith)
            requires
                bits == q * h + kept,
        ;
        lemma_fundamental_div_mod_converse(
            bits as int,
            h as int,
            (q + 1) as int,
            (kept - h) as int,
        );
        assert(bits >= h) by (nonlinear_arith)
            requires
                bits == (q + 1) * h + (kept - h),
                kept >= h,
                q >= 1,
        ;
        assert(significand_of(bits) == kept);
        assert(scale_of(bits) == q);
        assert(magnitude_units(bits) == kept * pow2(q));
    }
}

/// Rounding sees the value only: `n * 2^k` at `2^e` rounds as `n` at
/// `2^(e + k)`.
pub proof fn lemma_round_magnitude_scaled(n: nat, k: nat, e: int)
    ensures
        round_magnitude(n * pow2(k), e) == round_magnitude(n, e + k),
{
    lemma_pow2_pos(k);
    if n == 0 {
        lemma_mul_basics(pow2(k) as int);
    } else {
        let scaled = n * pow2(k);
        lemma_mul_strictly_positive(n as int, pow2(k) as int);
        lemma_bit_length_scaled(n, k);
        let q = quantum(n, e + k);
        assert(quantum(scaled, e) == q);
        if q <= e {
            lemma_pow2_adds(k, (e - q) as nat);
            lemma_mul_is_associative(n as int, pow2(k) as int, pow2((e - q) as nat) as int);
        } else if q <= e + k {
            let whole = n * pow2((e + k - q) as nat);
            let d = pow2((q - e) as nat);
            lemma_pow2_pos((q - e) as nat);
            lemma_pow2_adds((e + k - q) as nat, (q - e) as nat);
            lemma_mul_is_associative(n as int, pow2((e + k - q) as nat) as int, d as int);
            lemma_round_half_even_exact(whole, d);
        } else {
            let d = pow2((q - e - k) as nat);
            lemma_pow2_pos((q - e - k) as nat);
            lemma_pow2_adds((q - e - k) as nat, k);
            lemma_round_half_even_scaled(n, d, pow2(k));
        }
    }
}

/// A binary32 number rounds to itself.
pub proof fn lemma_round_magnitude_of_parts(magnitude: nat)
    requires
        magnitude < INFINITY_BITS,
    ensures
        round_magnitude(significand_of(magnitude), scale_of(magnitude) as int) == magnitude,
{
    let h = HIDDEN_BIT as nat;
    let n = significand_of(magnitude);
    let e = scale_of(magnitude);
    lemma2_to64();
    if magnitude == 0 {
    } else if magnitude < h {
        lemma_bit_length_bounds(n);
        if bit_length(n) > 24 {
            lemma_pow2_strictly_increases(23, (bit_length(n) - 1) as nat);
        }
        assert(quantum(n, 0) == 0);
        lemma_mul_basics(n as int);
    } else {
        lemma_bit_length_unique(n, 24);
        assert(quantum(n, e as int) == e);
        lemma_mul_basics(n as int);
        lemma_fundamental_div_mod(magnitude as int, h as int);
        assert(e * h + n == magnitude) by (nonlinear_arith)
            requires
                magnitude == h * (magnitude / h) + magnitude % h,
                e == magnitude / h - 1,
                n == h + magnitude % h,
        ;
    }
}

/// Where no digit is dropped and the result is in range, the rounded number
/// is the value itself.
pub proof fn lemma_round_magnitude_keeps_value(n: nat, e: nat)
    requires
        n > 0,
        quantum(n, e as int) <= e,
        round_magnitude(n, e as int) < INFINITY_BITS,
    ensures
        magnitude_units(round_magnitude(n, e as int)) == n * pow2(e),
{
    let q = quantum(n, e as int);
    let kept = kept_digits(n, e as int);
    lemma_kept_digits_range(n, e as int);
    lemma_assembled_units(q, kept);
    lemma_pow2_adds((e - q) as nat, q);
    lemma_mul_is_associative(n as int, pow2((e - q) as nat) as int, pow2(q) as int);
}

/// Rounding `quotient * d + rest`, where the rest lies clear of the middle.
pub proof fn lemma_round_half_even_clear(quotient: nat, d: nat, rest: nat)
    requires
        rest < d,
        2 * rest != d,
    ensures
        round_half_even(quotient * d + rest, d) == if 2 * rest < d {
            quotient
        } else {
            quotient + 1
        },
{
    lemma_fundamental_div_mod_converse(
        (quotient * d + rest) as int,
        d as int,
        quotient as int,
        rest as int,
    );
}

/// An addend that lies twenty-seven or more binary places below a normal
/// number is lost in the sum: `sig * 2^d + small` and `sig * 2^d - small`
/// both round back to `sig` at `2^(e + d)`.
pub proof fn lemma_round_magnitude_absorbs(sig: nat, d: nat, small: nat, e: nat, minus: bool)
    requires
        HIDDEN_BIT <= sig < 2 * HIDDEN_BIT,
        small < 2 * HIDDEN_BIT,
        d >= 27,
        e + d <= 253,
    ensures
        sig * pow2(d) > small,
        round_magnitude(
            if minus {
                (sig * pow2(d) - small) as nat
            } else {
                sig * pow2(d) + small
            },
            e as int,
        ) == (e + d) * (HIDDEN_BIT as nat) + sig,
{
    let h = HIDDEN_BIT as nat;
    let whole = pow2(d);
    let half = pow2((d - 1) as nat);
    lemma2_to64();
    lemma_pow2_unfold(d);
    if d > 27 {
        lemma_pow2_strictly_increases(27, d);
    }
    assert(whole >= 0x800_0000);
    assert(whole == 2 * half);
    lemma_pow2_adds(23, d);
    lemma_pow2_adds(24, d);
    lemma_pow2_adds(22, d);
    lemma_pow2_adds(24, (d - 1) as nat);
    lemma_pow2_adds(23, (d - 1) as nat);
    assert(pow2(22 + d) == pow2(23) * half) by {
        lemma_pow2_unfold(23);
        assert(pow2(22) * (2 * half) == (2 * pow2(22)) * half) by (nonlinear_arith);
    }
    assert(pow2(23 + d) == pow2(24) * half) by {
        lemma_pow2_unfold(24);
        assert(pow2(23) * (2 * half) == (2 * pow2(23)) * half) by (nonlinear_arith);
    }
    let exact = sig * whole;
    assert(pow2(23) * whole <= exact && exact + whole <= pow2(24) * whole) by (nonlinear_arith)
        requires
            pow2(23) <= sig,
            sig + 1 <= pow2(24),
            exact == sig * whole,
            whole > 0,
    ;
    let n: nat = if minus {
        (exact - small) as nat
    } else {
        exact + small
    };
    let target = (e + d) * h + sig;
    assert((e + d) * h <= 253 * h) by (nonlinear_arith)
        requires
            e + d <= 253,
            h >= 0,
    ;
    assert(target < INFINITY_BITS);
    if n >= pow2(23 + d) {
        lemma_bit_length_unique(n, 24 + d);
        assert(quantum(n, e as int) == e + d);
        if !minus || small == 0 {
            lemma_round_half_even_clear(sig, whole, small);
        } else {
            assert(n == (sig - 1) * whole + (whole - small)) by (nonlinear_arith)
                requires
                    n == sig * whole - small,
            ;
            lemma_round_half_even_clear((sig - 1) as nat, whole, (whole - small) as nat);
        }
        assert(kept_digits(n, e as int) == sig);
    } else {
        // only a power of two, less a little, falls below its own binade
        if sig > h {
            assert(sig * whole >= h * whole + whole) by (nonlinear_arith)
                requires
                    sig >= h + 1,
                    whole > 0,
            ;
        }
        assert(sig == h && minus && small > 0);
        assert(n == (pow2(24) - 1) * half + (half - small) && n >= pow2(23) * half)
            by (nonlinear_arith)
            requires
                n == sig * whole - small,
                sig == pow2(23),
                pow2(24) == 2 * pow2(23),
                whole == 2 * half,
                half >= 0x400_0000,
                small < 0x100_0000,
                pow2(23) == 0x80_0000,
        ;
        lemma_bit_length_unique(n, 23 + d);
        assert(quantum(n, e as int) == e + d - 1);
        lemma_round_half_even_clear((pow2(24) - 1) as nat, half, (half - small) as nat);
        assert(kept_digits(n, e as int) == pow2(24));
        assert((e + d - 1) * h + 2 * h == (e + d) * h + h) by (nonlinear_arith);
    }
}

/// How far two whole numbers lie apart.
pub open spec fn gap(a: int, b: int) -> int {
    if a >= b {
        a - b
    } else {
        b - a
    }
}

/// No multiple of `d` lies nearer to `n` than the one that rounding picks.
pub proof fn lemma_round_half_even_is_nearest(n: nat, d: nat, z: int)
    requires
        d > 0,
    ensures
        gap((round_half_even(n, d) * d) as int, n as int) <= gap(z * d, n as int),
{
    let quotient = (n / d) as int;
    let rest = (n % d) as int;
    let step = d as int;
    lemma_fundamental_div_mod(n as int, step);
    lemma_mul_is_commutative(step, quotient);
    assert((quotient + 1) * step == quotient * step + step) by (nonlinear_arith);
    if z <= quotient {
        lemma_mul_inequality(z, quotient, step);
    } else {
        lemma_mul_inequality(quotient + 1, z, step);
    }
}

/// No binary32 number lies nearer to a value than the one that rounding
/// picks, as long as that is finite. The value is `n * 2^e`, with `e` at or
/// above `-down`, and distances are taken in steps of `2^-down`.
pub proof fn lemma_round_magnitude_is_nearest(n: nat, e: int, down: nat, other: nat)
    requires
        e + down >= 0,
        round_magnitude(n, e) < INFINITY_BITS,
        other < INFINITY_BITS,
    ensures
        gap(
            (magnitude_units(round_magnitude(n, e)) * pow2(down)) as int,
            (n * pow2((e + down) as nat)) as int,
        ) <= gap(
            (magnitude_units(other) * pow2(down)) as int,
            (n * pow2((e + down) as nat)) as int,
        ),
{
    let value = n * pow2((e + down) as nat);
    let fine = pow2(down);
    lemma_pow2_pos(down);
    lemma_pow2_pos((e + down) as nat);
    lemma2_to64();
    if n == 0 {
        lemma_mul_basics(pow2((e + down) as nat) as int);
        lemma_mul_basics(pow2(0) as int);
        lemma_mul_basics(fine as int);
        lemma_mul_nonnegative(magnitude_units(other) as int, fine as int);
    } else {
        lemma_mul_strictly_positive(n as int, pow2((e + down) as nat) as int);
        // the same value, written in steps of 2^-down
        lemma_round_magnitude_scaled(n, (e + down) as nat, -(down as int));
        let floor = -(down as int);
        let q = quantum(value, floor);
        let kept = kept_digits(value, floor);
        let coarse = pow2(q + down);
        lemma_pow2_pos(q + down);
        lemma_pow2_adds(q, down);
        lemma_kept_digits_range(value, floor);
        lemma_assembled_units(q, kept);
        assert(kept == round_half_even(value, coarse)) by {
            if q <= floor {
                lemma_mul_basics(value as int);
                lemma_fundamental_div_mod_converse(value as int, 1, value as int, 0);
            }
        }
        assert(magnitude_units(round_magnitude(n, e)) * fine == kept * coarse) by {
            lemma_mul_is_associative(kept as int, pow2(q) as int, fine as int);
        }
        let sig = significand_of(other);
        let scale = scale_of(other);
        lemma_pow2_pos(scale);
        if scale >= q {
            let z = sig * pow2((scale - q) as nat);
            lemma_pow2_adds((scale - q) as nat, q);
            assert(magnitude_units(other) * fine == z * coarse) by (nonlinear_arith)
                requires
                    magnitude_units(other) == sig * pow2(scale),
                    pow2(scale) == pow2((scale - q) as nat) * pow2(q),
                    coarse == pow2(q) * fine,
                    z == sig * pow2((scale - q) as nat),
            ;
            lemma_round_half_even_is_nearest(value, coarse, z as int);
        } else {
            // the other number lies below 2^(23 + q), which the value does
            // not, and which is itself a multiple of the quantum
            let len = bit_length(value);
            lemma_bit_length_bounds(value);
            lemma_pow2_adds(23, q + down);
            lemma_pow2_adds(23, q);
            lemma_pow2_adds(24, scale);
            if scale + 1 < q {
                lemma_pow2_strictly_increases(24 + scale, 23 + q);
            }
            assert(magnitude_units(other) < pow2(24) * pow2(scale)) by (nonlinear_arith)
                requires
                    magnitude_units(other) == sig * pow2(scale),
                    sig < pow2(24),
                    pow2(scale) > 0,
            ;
            assert(magnitude_units(other) * fine < pow2(23) * coarse) by (nonlinear_arith)
                requires
                    magnitude_units(other) < pow2(23) * pow2(q),
                    coarse == pow2(q) * fine,
                    fine > 0,
            ;
            assert(pow2(23) * coarse <= value);
            lemma_round_half_even_is_nearest(value, coarse, pow2(23) as int);
        }
    }
}

/// Rounding gives infinity only to a value that lies at least half a step
/// beyond the greatest finite number, which is `(2^24 - 1) * 2^253` steps of
/// 2^-149. The value is `n * 2^e`, with `e` at or above `-down`, and the
/// claim is stated in steps of `2^-down`, doubled.
pub proof fn lemma_round_magnitude_overflows(n: nat, e: int, down: nat)
    requires
        e + down >= 0,
        round_magnitude(n, e) == INFINITY_BITS,
    ensures
        2 * (n * pow2((e + down) as nat)) >= 0x1ff_ffff * pow2(253 + down),
{
    let h = HIDDEN_BIT as nat;
    let value = n * pow2((e + down) as nat);
    lemma_pow2_pos((e + down) as nat);
    lemma_pow2_pos(253 + down);
    lemma2_to64();
    lemma_mul_strictly_positive(n as int, pow2((e + down) as nat) as int);
    lemma_round_magnitude_scaled(n, (e + down) as nat, -(down as int));
    let floor = -(down as int);
    let q = quantum(value, floor);
    let kept = kept_digits(value, floor);
    lemma_kept_digits_range(value, floor);
    assert(q >= 253) by (nonlinear_arith)
        requires
            q * h + kept >= 255 * h,
            kept <= 2 * h,
            h > 0,
    ;
    lemma_bit_length_bounds(value);
    let edge = pow2(253 + down);
    if q >= 254 {
        let len = bit_length(value);
        lemma_pow2_adds(24, 253 + down);
        if len - 1 > 277 + down {
            lemma_pow2_strictly_increases(277 + down, (len - 1) as nat);
        }
        assert(2 * value >= 0x1ff_ffff * edge) by (nonlinear_arith)
            requires
                value >= 0x100_0000 * edge,
                edge > 0,
        ;
    } else {
        let quotient = value / edge;
        let rest = value % edge;
        assert(kept == 2 * h) by (nonlinear_arith)
            requires
                q == 253,
                q * h + kept >= 255 * h,
                kept <= 2 * h,
        ;
        lemma_fundamental_div_mod(value as int, edge as int);
        assert(2 * value >= 0x1ff_ffff * edge) by (nonlinear_arith)
            requires
                value == edge * quotient + rest,
                quotient == 0xff_ffff,
                2 * rest >= edge,
        ;
    }
}

} // verus!
