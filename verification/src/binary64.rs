//! Arithmetic on binary64 encodings, carried out in integers.
//!
//! A finite number is `mantissa * 2^exponent`. Products and quotients are rounded
//! to 53 significant bits, to the nearest and on a tie to the even mantissa; the
//! exponent is not bounded, which makes no difference where only the nearest
//! integer of a product with an integer is asked for.

use crate::model::Real;
use vstd::arithmetic::power2::lemma2_to64;
use vstd::arithmetic::power2::lemma2_to64_rest;
use vstd::arithmetic::power2::lemma_pow2_adds;
use vstd::arithmetic::power2::lemma_pow2_pos;
use vstd::arithmetic::power2::lemma_pow2_strictly_increases;
use vstd::arithmetic::power2::lemma_pow2_unfold;
use vstd::arithmetic::power2::pow2;
use vstd::prelude::*;

verus! {

/// 2^52, the weight of the implicit leading bit.
pub const LEADING: u64 = 0x10_0000_0000_0000;

/// 2^53, one above the largest mantissa.
pub const MANTISSA_END: u64 = 0x20_0000_0000_0000;

/// The biased exponent field.
pub open spec fn exponent_field(r: Real) -> int {
    (r.bits as int / LEADING as int) % 2048
}

/// The fraction field.
pub open spec fn fraction_field(r: Real) -> int {
    r.bits as int % LEADING as int
}

/// Whether the sign bit is set.
pub open spec fn sign_bit(r: Real) -> bool {
    r.bits >= 0x8000_0000_0000_0000
}

/// Whether the encoding is that of a number and not of an infinity or a NaN.
pub open spec fn finite(r: Real) -> bool {
    exponent_field(r) != 2047
}

/// Whether the encoding is a NaN.
pub open spec fn nan(r: Real) -> bool {
    exponent_field(r) == 2047 && fraction_field(r) != 0
}

/// Whether the encoding is one of the two zeros.
pub open spec fn zero(r: Real) -> bool {
    r.bits == 0 || r.bits == 0x8000_0000_0000_0000
}

/// Finite and greater than zero.
pub open spec fn finite_positive(r: Real) -> bool {
    finite(r) && !sign_bit(r) && !zero(r)
}

/// From 0 to the number `top`, which is positive; encodings of numbers that are
/// not negative are ordered as the numbers are.
pub open spec fn from_zero_to(r: Real, top: Real) -> bool {
    r.bits <= top.bits || r.bits == 0x8000_0000_0000_0000
}

/// Further from 1 than the distance between 1 and the next larger number.
pub open spec fn apart_from_one(r: Real) -> bool {
    !nan(r) && !(0x3FEF_FFFF_FFFF_FFFE <= r.bits <= 0x3FF0_0000_0000_0001)
}

/// Whether two encodings stand for the same number: the two zeros do, a NaN never
/// does.
pub open spec fn same_number(a: Real, b: Real) -> bool {
    !nan(a) && !nan(b) && (a == b || (zero(a) && zero(b)))
}

/// The integer mantissa of a finite number.
pub open spec fn mantissa(r: Real) -> nat {
    if exponent_field(r) == 0 {
        fraction_field(r) as nat
    } else {
        (fraction_field(r) + LEADING) as nat
    }
}

/// The power of two that the mantissa is multiplied by.
pub open spec fn exponent(r: Real) -> int {
    if exponent_field(r) == 0 {
        -1074
    } else {
        exponent_field(r) - 1075
    }
}

/// The place of a number that is no NaN in the order of all of them.
pub open spec fn rank(r: Real) -> int {
    if sign_bit(r) {
        0x8000_0000_0000_0000 - r.bits
    } else {
        r.bits as int
    }
}

/// Whether one number is less than another; no NaN is, nor is anything less than it.
pub open spec fn less(a: Real, b: Real) -> bool {
    !nan(a) && !nan(b) && rank(a) < rank(b)
}

impl Real {
    /// Whether this is less than `other`.
    pub fn is_less_than(self, other: Real) -> (r: bool)
        ensures
            r == less(self, other),
    {
        let a: i128 = if self.bits >= 0x8000_0000_0000_0000 {
            0x8000_0000_0000_0000 - self.bits as i128
        } else {
            self.bits as i128
        };
        let b: i128 = if other.bits >= 0x8000_0000_0000_0000 {
            0x8000_0000_0000_0000 - other.bits as i128
        } else {
            other.bits as i128
        };
        !self.is_nan() && !other.is_nan() && a < b
    }

    /// Whether this is a number and not an infinity or a NaN.
    pub fn is_finite(self) -> (r: bool)
        ensures
            r == finite(self),
    {
        (self.bits / LEADING) % 2048 != 2047
    }

    /// Whether this is finite and greater than zero.
    pub fn is_finite_positive(self) -> (r: bool)
        ensures
            r == finite_positive(self),
    {
        self.is_finite() && self.bits < 0x8000_0000_0000_0000 && self.bits != 0
    }

    /// Whether this is one of the two zeros.
    pub fn is_zero(self) -> (r: bool)
        ensures
            r == zero(self),
    {
        self.bits == 0 || self.bits == 0x8000_0000_0000_0000
    }

    /// Whether this lies from 0 to `top`.
    pub fn is_from_zero_to(self, top: Real) -> (r: bool)
        ensures
            r == from_zero_to(self, top),
    {
        self.bits <= top.bits || self.bits == 0x8000_0000_0000_0000
    }

    /// Whether this is a NaN.
    pub fn is_nan(self) -> (r: bool)
        ensures
            r == nan(self),
    {
        (self.bits / LEADING) % 2048 == 2047 && self.bits % LEADING != 0
    }

    /// Whether this and `other` are the same number.
    pub fn equals(self, other: Real) -> (r: bool)
        ensures
            r == same_number(self, other),
    {
        !self.is_nan() && !other.is_nan() && (self.bits == other.bits || (self.is_zero()
            && other.is_zero()))
    }

    /// Whether this is further from 1 than one unit in the last place above 1.
    pub fn is_apart_from_one(self) -> (r: bool)
        ensures
            r == apart_from_one(self),
    {
        !self.is_nan() && !(0x3FEF_FFFF_FFFF_FFFE <= self.bits && self.bits <= 0x3FF0_0000_0000_0001)
    }
}

/// The number of binary digits of `n`.
pub open spec fn bit_length(n: nat) -> nat
    decreases n,
{
    if n == 0 {
        0
    } else {
        1 + bit_length(n / 2)
    }
}

/// The integer nearest to `n / d`, the even one on a tie.
pub open spec fn half_even(n: nat, d: nat) -> nat {
    let q = n / d;
    let r = n % d;
    if 2 * r < d || (2 * r == d && q % 2 == 0) {
        q
    } else {
        q + 1
    }
}

/// `p * 2^e` rounded to 53 significant bits, as a mantissa and an exponent.
pub open spec fn round53(p: nat, e: int) -> (nat, int) {
    if bit_length(p) <= 53 {
        (p, e)
    } else {
        let s = (bit_length(p) - 53) as nat;
        (half_even(p, pow2(s)), e + s)
    }
}

/// `n / d` rounded to 53 significant bits, as a mantissa and an exponent. The
/// dividend is brought to 127 digits first, which the exponent takes back.
pub open spec fn ratio53(n: nat, d: nat) -> (nat, int) {
    let k = (127 - bit_length(n)) as nat;
    let wide = (n * pow2(k)) as nat;
    let s = (bit_length(wide / d) - 53) as nat;
    (half_even(wide, (d * pow2(s)) as nat), s - k)
}

/// The integer nearest to `m * 2^e`, the larger one on a tie.
pub open spec fn nearest_int(m: nat, e: int) -> nat {
    if e >= 0 {
        (m * pow2(e as nat)) as nat
    } else {
        (2 * m + pow2((-e) as nat)) / pow2((1 - e) as nat)
    }
}

/// The least integer that is at least `m * 2^e`.
pub open spec fn ceil_int(m: nat, e: int) -> nat {
    if e >= 0 {
        (m * pow2(e as nat)) as nat
    } else {
        ((m + pow2((-e) as nat) - 1) / pow2((-e) as nat) as int) as nat
    }
}

/// A count times a number that is not negative, as binary64 multiplies it, rounded
/// up to an integer.
pub open spec fn ceil_product(count: nat, factor: Real) -> nat {
    let p = round53(count * mantissa(factor), exponent(factor));
    ceil_int(p.0, p.1)
}

/// A count of frames times a positive number, as binary64 multiplies and rounds
/// it to the nearest integer.
pub open spec fn scaled_frames(count: nat, factor: Real) -> nat {
    let p = round53(count * mantissa(factor), exponent(factor));
    nearest_int(p.0, p.1)
}

/// A count times a number `m * 2^e`, as binary64 multiplies and rounds it to the
/// nearest integer.
pub open spec fn times_number(count: nat, number: (nat, int)) -> nat {
    let p = round53(count * number.0, number.1);
    nearest_int(p.0, p.1)
}

/// A frame number times a positive number, to the nearest frame and no further than
/// the largest frame number. A tie goes away from zero.
pub open spec fn rescaled(frame: int, number: (nat, int)) -> int {
    if frame >= 0 {
        let v = times_number(frame as nat, number);
        if v > i32::MAX {
            i32::MAX as int
        } else {
            v as int
        }
    } else {
        let v = times_number((-frame) as nat, number);
        if v > 0x8000_0000 {
            i32::MIN as int
        } else {
            -v
        }
    }
}

/// The frames that the source span of a clip takes at another speed: count times
/// speed, divided by the new speed, as binary64 computes it and rounds it to the
/// nearest integer.
pub open spec fn retimed_frames(count: nat, speed: Real, new_speed: Real) -> nat {
    let span = round53(count * mantissa(speed), exponent(speed));
    let q = ratio53(span.0, mantissa(new_speed));
    nearest_int(q.0, q.1 + span.1 - exponent(new_speed))
}

pub proof fn lemma_bit_length_bounds(n: nat)
    ensures
        n < pow2(bit_length(n)),
        n > 0 ==> pow2((bit_length(n) - 1) as nat) <= n,
    decreases n,
{
    if n == 0 {
        lemma2_to64();
    } else {
        lemma_bit_length_bounds(n / 2);
        lemma_pow2_unfold(bit_length(n));
        if n / 2 > 0 {
            lemma_pow2_unfold((bit_length(n) - 1) as nat);
        } else {
            lemma2_to64();
        }
    }
}

/// A number below `2^k` has at most `k` digits.
pub proof fn lemma_bit_length_le(n: nat, k: nat)
    requires
        n < pow2(k),
    ensures
        bit_length(n) <= k,
{
    lemma_bit_length_bounds(n);
    if bit_length(n) > k {
        if bit_length(n) - 1 > k {
            lemma_pow2_strictly_increases(k, (bit_length(n) - 1) as nat);
        }
    }
}

fn bit_length_of(n: u128) -> (r: u32)
    ensures
        r == bit_length(n as nat),
        r <= 128,
    decreases n,
{
    proof {
        lemma2_to64();
        lemma_pow2_adds(64, 64);
        lemma_bit_length_le(n as nat, 128);
    }
    if n == 0 {
        0
    } else {
        let half: u32 = bit_length_of(n / 2);
        half + 1
    }
}

fn power_of_two(k: u32) -> (r: u128)
    requires
        k < 128,
    ensures
        r == pow2(k as nat),
{
    let mut r: u128 = 1;
    let mut i: u32 = 0;
    proof {
        lemma2_to64();
        lemma2_to64_rest();
        lemma_pow2_adds(63, 64);
    }
    while i < k
        invariant
            i <= k < 128,
            r == pow2(i as nat),
            pow2(127) == 0x8000_0000_0000_0000_0000_0000_0000_0000,
        decreases k - i,
    {
        proof {
            lemma_pow2_unfold((i + 1) as nat);
            if i + 1 < 127 {
                lemma_pow2_strictly_increases((i + 1) as nat, 127);
            }
        }
        r = r * 2;
        i += 1;
    }
    r
}

fn round_half_even(n: u128, d: u128) -> (r: u128)
    requires
        0 < d,
        d <= 0x4000_0000_0000_0000_0000_0000_0000_0000,
    ensures
        r == half_even(n as nat, d as nat),
{
    let q: u128 = n / d;
    let rest: u128 = n % d;
    if 2 * rest < d || (2 * rest == d && q % 2 == 0) {
        q
    } else {
        assert(d > 1);
        assert(n / d < 0xFFFF_FFFF_FFFF_FFFF_FFFF_FFFF_FFFF_FFFF) by (nonlinear_arith)
            requires
                d > 1,
                n <= 0xFFFF_FFFF_FFFF_FFFF_FFFF_FFFF_FFFF_FFFF,
        ;
        q + 1
    }
}

/// A mantissa and an exponent.
#[derive(Clone, Copy)]
pub struct Binary {
    pub m: u128,
    pub e: i32,
}

/// Rounds to 53 significant bits.
fn round_53(p: u128, e: i32) -> (r: Binary)
    requires
        p < 0x4000_0000_0000_0000_0000_0000_0000_0000,
        -100_000 <= e <= 100_000,
    ensures
        (r.m as nat, r.e as int) == round53(p as nat, e as int),
        -100_000 <= r.e <= 100_128,
{
    let digits: u32 = bit_length_of(p);
    if digits <= 53 {
        Binary { m: p, e }
    } else {
        let s: u32 = digits - 53;
        proof {
            lemma2_to64();
            lemma2_to64_rest();
            lemma_pow2_adds(62, 64);
            lemma_bit_length_le(p as nat, 126);
            lemma_pow2_strictly_increases(s as nat, 126);
            lemma_pow2_pos(s as nat);
        }
        let d: u128 = power_of_two(s);
        let m: u128 = round_half_even(p, d);
        Binary { m, e: e + s as i32 }
    }
}

/// The integer nearest to `b`, where it does not exceed `limit`.
fn nearest_up_to(b: Binary, limit: u64) -> (r: Option<u64>)
    requires
        b.m <= MANTISSA_END,
        -200_000 <= b.e <= 200_000,
    ensures
        r == (if nearest_int(b.m as nat, b.e as int) <= limit {
            Some(nearest_int(b.m as nat, b.e as int) as u64)
        } else {
            None
        }),
{
    proof {
        lemma2_to64();
        lemma2_to64_rest();
    }
    if b.m == 0 {
        proof {
            if b.e < 0 {
                let k = (-b.e) as nat;
                lemma_pow2_pos(k);
                lemma_pow2_unfold((k + 1) as nat);
                assert(pow2(k) / (2 * pow2(k)) == 0) by (nonlinear_arith)
                    requires
                        pow2(k) > 0,
                ;
            } else {
                assert(0 * pow2(b.e as nat) == 0) by (nonlinear_arith);
            }
        }
        return Some(0);
    }
    if b.e >= 64 {
        proof {
            let big = pow2(b.e as nat);
            if b.e > 64 {
                lemma_pow2_strictly_increases(64, b.e as nat);
            }
            assert(b.m * big >= big) by (nonlinear_arith)
                requires
                    b.m >= 1,
                    big >= 0,
            ;
        }
        return None;
    }
    if b.e >= 0 {
        let f: u128 = power_of_two(b.e as u32);
        proof {
            if b.e < 63 {
                lemma_pow2_strictly_increases(b.e as nat, 63);
            }
            assert(b.m * f <= 0x20_0000_0000_0000 * 0x8000_0000_0000_0000) by (nonlinear_arith)
                requires
                    b.m <= 0x20_0000_0000_0000,
                    f <= 0x8000_0000_0000_0000,
            ;
        }
        let v: u128 = b.m * f;
        if v <= limit as u128 {
            Some(v as u64)
        } else {
            None
        }
    } else {
        let k: u32 = (-b.e) as u32;
        if k > 60 {
            proof {
                lemma_pow2_strictly_increases(60, k as nat);
                lemma_pow2_unfold((k + 1) as nat);
                let p = pow2(k as nat);
                assert((2 * b.m + p) / (2 * p) as int == 0) by (nonlinear_arith)
                    requires
                        0 <= 2 * b.m < p,
                ;
            }
            return Some(0);
        }
        let half: u128 = power_of_two(k);
        let whole: u128 = power_of_two(k + 1);
        proof {
            lemma_pow2_pos((k + 1) as nat);
            lemma_pow2_strictly_increases(k as nat, 64);
        }
        let v: u128 = (2 * b.m + half) / whole;
        if v <= limit as u128 {
            Some(v as u64)
        } else {
            None
        }
    }
}

impl Real {
    fn parts(self) -> (r: Binary)
        requires
            finite(self),
        ensures
            r.m == mantissa(self),
            r.e == exponent(self),
            r.m < MANTISSA_END,
            -1074 <= r.e <= 971,
    {
        let field: u64 = (self.bits / LEADING) % 2048;
        let fraction: u64 = self.bits % LEADING;
        if field == 0 {
            Binary { m: fraction as u128, e: -1074 }
        } else {
            Binary { m: (fraction + LEADING) as u128, e: field as i32 - 1075 }
        }
    }
}

/// A count of frames times a positive number, to the nearest frame; `None` where
/// that does not fit a frame number.
pub fn scale_frames(count: i32, factor: Real) -> (r: Option<i32>)
    requires
        0 <= count,
        finite(factor),
    ensures
        r == (if scaled_frames(count as nat, factor) <= i32::MAX {
            Some(scaled_frames(count as nat, factor) as i32)
        } else {
            None
        }),
{
    let f = factor.parts();
    proof {
        let m = f.m;
        assert(count * m <= 0x8000_0000 * 0x20_0000_0000_0000) by (nonlinear_arith)
            requires
                0 <= count < 0x8000_0000,
                0 <= m <= 0x20_0000_0000_0000,
        ;
        assert(0 <= count * m) by (nonlinear_arith)
            requires
                0 <= count,
                0 <= m,
        ;
    }
    let product: u128 = count as u128 * f.m;
    let rounded = round_53(product, f.e);
    proof {
        lemma_round53_small(product as nat, f.e as int);
    }
    match nearest_up_to(rounded, 0x7FFF_FFFF) {
        Some(v) => Some(v as i32),
        None => None,
    }
}

/// The least integer that is at least `b`, where it does not exceed 2^64.
fn ceil_up_to(b: Binary) -> (r: Option<u128>)
    requires
        b.m <= MANTISSA_END,
        -200_000 <= b.e <= 200_000,
    ensures
        r == (if ceil_int(b.m as nat, b.e as int) <= 0x1_0000_0000_0000_0000 {
            Some(ceil_int(b.m as nat, b.e as int) as u128)
        } else {
            None
        }),
{
    proof {
        lemma2_to64();
        lemma2_to64_rest();
    }
    if b.m == 0 {
        proof {
            if b.e < 0 {
                let p = pow2((-b.e) as nat);
                lemma_pow2_pos((-b.e) as nat);
                assert((p - 1) / p as int == 0) by (nonlinear_arith)
                    requires
                        p > 0,
                ;
            } else {
                assert(0 * pow2(b.e as nat) == 0) by (nonlinear_arith);
            }
        }
        return Some(0);
    }
    if b.e >= 65 {
        proof {
            let big = pow2(b.e as nat);
            lemma_pow2_strictly_increases(64, b.e as nat);
            assert(b.m * big >= big) by (nonlinear_arith)
                requires
                    b.m >= 1,
                    big >= 0,
            ;
        }
        return None;
    }
    if b.e >= 0 {
        proof {
            lemma_pow2_unfold(65);
            if b.e < 64 {
                lemma_pow2_strictly_increases(b.e as nat, 64);
            }
        }
        let f: u128 = power_of_two(b.e as u32);
        proof {
            assert(b.m * f <= 0x20_0000_0000_0000 * 0x1_0000_0000_0000_0000) by (nonlinear_arith)
                requires
                    b.m <= 0x20_0000_0000_0000,
                    f <= 0x1_0000_0000_0000_0000,
            ;
        }
        let v: u128 = b.m * f;
        if v <= 0x1_0000_0000_0000_0000 {
            Some(v)
        } else {
            None
        }
    } else {
        let k: u32 = (-b.e) as u32;
        if k > 60 {
            proof {
                lemma_pow2_strictly_increases(60, k as nat);
                let p = pow2(k as nat);
                let m = b.m as int;
                assert((m + p - 1) / p as int == 1) by (nonlinear_arith)
                    requires
                        1 <= m < p,
                ;
            }
            return Some(1);
        }
        proof {
            if k < 60 {
                lemma_pow2_strictly_increases(k as nat, 60);
            }
            lemma_pow2_pos(k as nat);
        }
        let f: u128 = power_of_two(k);
        let v: u128 = (b.m + f - 1) / f;
        proof {
            let n = (b.m + f - 1) as int;
            assert(n / f as int <= n) by (nonlinear_arith)
                requires
                    f >= 1,
                    n >= 0,
            ;
        }
        Some(v)
    }
}

/// A count times a number that is not negative, rounded up, where the result does
/// not exceed 2^64.
pub fn ceil_times(count: u32, factor: Real) -> (r: Option<u128>)
    requires
        finite(factor),
    ensures
        r == (if ceil_product(count as nat, factor) <= 0x1_0000_0000_0000_0000 {
            Some(ceil_product(count as nat, factor) as u128)
        } else {
            None
        }),
{
    let f = factor.parts();
    proof {
        let m = f.m;
        assert(0 <= count * m <= 0x1_0000_0000 * 0x20_0000_0000_0000) by (nonlinear_arith)
            requires
                0 <= count <= 0x1_0000_0000,
                0 <= m <= 0x20_0000_0000_0000,
        ;
    }
    let product: u128 = count as u128 * f.m;
    let rounded = round_53(product, f.e);
    proof {
        lemma_round53_small(product as nat, f.e as int);
    }
    ceil_up_to(rounded)
}

/// No frames stay none at any speed.
pub proof fn lemma_scaled_none(factor: Real)
    ensures
        scaled_frames(0, factor) == 0,
{
    let e = exponent(factor);
    let m = mantissa(factor);
    assert(0 * m == 0) by (nonlinear_arith);
    assert(round53(0, e) == (0nat, e));
    if e >= 0 {
        assert(0 * pow2(e as nat) == 0) by (nonlinear_arith);
    } else {
        let d = pow2((-e) as nat);
        lemma_pow2_pos((-e) as nat);
        lemma_pow2_unfold((1 - e) as nat);
        assert((2 * 0 + d) / (2 * d) == 0) by (nonlinear_arith)
            requires
                d > 0,
        ;
    }
}

/// A mantissa that was rounded to 53 bits stays within 2^53.
proof fn lemma_round53_small(p: nat, e: int)
    ensures
        round53(p, e).0 <= MANTISSA_END,
{
    lemma2_to64();
    lemma2_to64_rest();
    lemma_bit_length_bounds(p);
    if bit_length(p) <= 53 {
        if bit_length(p) < 53 {
            lemma_pow2_strictly_increases(bit_length(p), 53);
        }
    } else {
        let s = (bit_length(p) - 53) as nat;
        lemma_pow2_adds(53, s);
        lemma_pow2_pos(s);
        let d = pow2(s);
        assert(p / d < 0x20_0000_0000_0000) by (nonlinear_arith)
            requires
                p < 0x20_0000_0000_0000 * d,
                d > 0,
        ;
    }
}

/// Divides, rounding to 53 significant bits.
pub fn ratio_53(n: u64, d: u64) -> (r: Binary)
    requires
        0 < n <= MANTISSA_END,
        0 < d <= MANTISSA_END,
    ensures
        (r.m as nat, r.e as int) == ratio53(n as nat, d as nat),
        0 < r.m <= MANTISSA_END,
        -127 <= r.e <= 127,
{
    let digits: u32 = bit_length_of(n as u128);
    proof {
        lemma2_to64();
        lemma2_to64_rest();
        lemma_bit_length_le(n as nat, 54);
        lemma_bit_length_bounds(n as nat);
        let k = (127 - digits) as nat;
        lemma_pow2_adds(digits as nat, k);
        lemma_pow2_adds((digits - 1) as nat, k);
        lemma_pow2_pos(k);
        lemma_pow2_adds(63, 63);
        lemma_pow2_adds(63, 64);
        let p = pow2(k);
        assert(n * p < pow2(digits as nat) * p) by (nonlinear_arith)
            requires
                n < pow2(digits as nat),
                p > 0,
        ;
        assert(n * p >= pow2((digits - 1) as nat) * p) by (nonlinear_arith)
            requires
                n >= pow2((digits - 1) as nat),
                p > 0,
        ;
        lemma_pow2_strictly_increases(k, 127);
    }
    let up: u32 = 127 - digits;
    let wide: u128 = n as u128 * power_of_two(up);
    let q: u128 = wide / d as u128;
    proof {
        let w = wide as int;
        let dd = d as int;
        assert(w / dd >= 0x40_0000_0000_0000) by (nonlinear_arith)
            requires
                w >= 0x4000_0000_0000_0000_0000_0000_0000_0000,
                0 < dd <= 0x20_0000_0000_0000,
        ;
    }
    let quotient_digits: u32 = bit_length_of(q);
    proof {
        lemma_bit_length_bounds(q as nat);
        if quotient_digits < 54 {
            lemma_pow2_strictly_increases(quotient_digits as nat, 54);
        }
        lemma_bit_length_le(q as nat, 127);
    }
    let s: u32 = quotient_digits - 53;
    proof {
        lemma_ratio_shift(wide as nat, d as nat, quotient_digits as nat);
        lemma_pow2_pos(s as nat);
        lemma_pow2_adds(10, 64);
        if s < 74 {
            lemma_pow2_strictly_increases(s as nat, 74);
        }
    }
    let divisor: u128 = d as u128 * power_of_two(s);
    let m: u128 = round_half_even(wide, divisor);
    Binary { m, e: s as i32 - up as i32 }
}

/// The divisor that leaves 53 digits of a quotient is not too large, and the
/// rounded quotient lies within 2^53.
proof fn lemma_ratio_shift(wide: nat, d: nat, digits: nat)
    requires
        0 < d,
        digits >= 54,
        wide < pow2(127),
        pow2((digits - 1) as nat) <= wide / d < pow2(digits),
    ensures
        0 < d * pow2((digits - 53) as nat),
        d * pow2((digits - 53) as nat) * LEADING <= wide,
        0 < half_even(wide, (d * pow2((digits - 53) as nat)) as nat) <= MANTISSA_END,
{
    let s = (digits - 53) as nat;
    let f = pow2(s);
    let q = wide / d;
    lemma2_to64();
    lemma2_to64_rest();
    lemma_pow2_pos(s);
    lemma_pow2_adds(s, 52);
    lemma_pow2_adds(s, 53);
    let v = d * f;
    assert(0 < v) by (nonlinear_arith)
        requires
            v == d * f,
            d > 0,
            f > 0,
    ;
    assert(d * q <= wide < d * q + d) by (nonlinear_arith)
        requires
            q == wide / d,
            d > 0,
    ;
    assert(v * 0x10_0000_0000_0000 <= wide) by (nonlinear_arith)
        requires
            v == d * f,
            f * 0x10_0000_0000_0000 <= q,
            d * q <= wide,
            d > 0,
    ;
    assert(wide < v * 0x20_0000_0000_0000) by (nonlinear_arith)
        requires
            v == d * f,
            q + 1 <= f * 0x20_0000_0000_0000,
            wide < d * q + d,
            d > 0,
    ;
    let whole = wide / v;
    assert(0x10_0000_0000_0000 <= whole < 0x20_0000_0000_0000) by (nonlinear_arith)
        requires
            whole == wide / v,
            v > 0,
            v * 0x10_0000_0000_0000 <= wide,
            wide < v * 0x20_0000_0000_0000,
    ;
}

/// A count times a number, to the nearest integer where that does not exceed
/// `limit`.
pub fn times_up_to(count: u32, number: Binary, limit: u64) -> (r: Option<u64>)
    requires
        number.m <= MANTISSA_END,
        -2000 <= number.e <= 2000,
    ensures
        r == ({
            let v = times_number(count as nat, (number.m as nat, number.e as int));
            if v <= limit {
                Some(v as u64)
            } else {
                None
            }
        }),
{
    proof {
        let m = number.m;
        assert(count * m <= 0x1_0000_0000 * 0x20_0000_0000_0000) by (nonlinear_arith)
            requires
                0 <= count <= 0x1_0000_0000,
                0 <= m <= 0x20_0000_0000_0000,
        ;
        assert(0 <= count * m) by (nonlinear_arith)
            requires
                0 <= count,
                0 <= m,
        ;
    }
    let product: u128 = count as u128 * number.m;
    let rounded = round_53(product, number.e);
    proof {
        lemma_round53_small(product as nat, number.e as int);
    }
    nearest_up_to(rounded, limit)
}

/// A quotient below 1, rounded to 53 bits, is within half a unit of its last place:
/// its mantissa has 53 bits, and its exponent is at most -52.
proof fn lemma_ratio_close(n: nat, d: nat)
    requires
        0 < n < d <= 0x1_0000_0000,
    ensures
        ({
            let (m, e) = ratio53(n, d);
            &&& LEADING <= m <= MANTISSA_END
            &&& e <= -52
            &&& 2 * m * d <= 2 * n * pow2((-e) as nat) + d
        }),
{
    lemma2_to64();
    lemma2_to64_rest();
    lemma_bit_length_bounds(n);
    lemma_bit_length_le(n, 32);
    let k = (127 - bit_length(n)) as nat;
    let a = pow2(k);
    let wide = n * a;
    lemma_pow2_pos(k);
    lemma_pow2_adds(bit_length(n), k);
    lemma_pow2_adds((bit_length(n) - 1) as nat, k);
    lemma_pow2_adds(63, 63);
    lemma_pow2_adds(63, 64);
    assert(wide < pow2(127)) by (nonlinear_arith)
        requires
            wide == n * a,
            n < pow2(bit_length(n)),
            pow2(bit_length(n)) * a == pow2(127),
            a > 0,
    ;
    assert(wide >= pow2(126)) by (nonlinear_arith)
        requires
            wide == n * a,
            n >= pow2((bit_length(n) - 1) as nat),
            pow2((bit_length(n) - 1) as nat) * a == pow2(126),
            a > 0,
    ;
    let q = wide / d;
    assert(q >= 0x4000_0000_0000_0000_0000_0000) by (nonlinear_arith)
        requires
            q == wide / d,
            wide >= 0x4000_0000_0000_0000_0000_0000_0000_0000,
            0 < d <= 0x1_0000_0000,
    ;
    lemma_bit_length_bounds(q);
    let digits = bit_length(q);
    if digits < 54 {
        lemma_pow2_strictly_increases(digits, 54);
    }
    lemma_ratio_shift(wide, d, digits);
    let s = (digits - 53) as nat;
    let f = pow2(s);
    lemma_pow2_pos(s);
    let v = d * f;
    let m = half_even(wide, v);
    let whole = wide / v;
    assert(v * whole <= wide < v * whole + v) by (nonlinear_arith)
        requires
            whole == wide / v,
            v > 0,
    ;
    assert(LEADING <= whole) by (nonlinear_arith)
        requires
            whole == wide / v,
            v > 0,
            v * LEADING <= wide,
    ;
    assert(wide % v == wide - v * whole) by (nonlinear_arith)
        requires
            whole == wide / v,
            v > 0,
    ;
    assert(2 * m * v <= 2 * wide + v) by (nonlinear_arith)
        requires
            m == whole || (m == whole + 1 && 2 * (wide - v * whole) >= v),
            v * whole <= wide,
    ;
    // The quotient is below 1, so fewer digits are cut off than were put on.
    assert(s < k) by {
        if s >= k {
            lemma_pow2_adds(k, (s - k) as nat);
            let g = pow2((s - k) as nat);
            lemma_pow2_pos((s - k) as nat);
            assert(v * LEADING > wide) by (nonlinear_arith)
                requires
                    v == d * f,
                    f == a * g,
                    g >= 1,
                    a >= 1,
                    wide == n * a,
                    n < d,
                    LEADING >= 1,
            ;
        }
    }
    let up = (k - s) as nat;
    let h = pow2(up);
    lemma_pow2_adds(up, s);
    lemma_pow2_pos(up);
    assert(2 * m * d <= 2 * n * h + d) by (nonlinear_arith)
        requires
            2 * m * v <= 2 * wide + v,
            v == d * f,
            wide == n * a,
            a == h * f,
            f > 0,
    ;
    assert(up >= 52) by {
        if up < 52 {
            lemma_pow2_strictly_increases(up, 52);
            assert(h <= 0x8_0000_0000_0000) by {
                if up < 51 {
                    lemma_pow2_strictly_increases(up, 51);
                }
            }
            assert(false) by (nonlinear_arith)
                requires
                    2 * m * d <= 2 * n * h + d,
                    n < d,
                    m >= 0x10_0000_0000_0000,
                    h <= 0x8_0000_0000_0000,
                    d > 0,
            ;
        }
    }
}

/// Where `m / h` is at most half of `1 / h` above `n / d`, and `x` times `n / d` is
/// at most the bound, then `x` times `m / h` is at most half of `x / h` above it.
proof fn lemma_product_within(x: int, m: int, n: int, d: int, h: int, bound: int)
    requires
        2 * m * d <= 2 * n * h + d,
        x * n <= bound * d,
        0 <= x,
        0 < d,
        0 < h,
    ensures
        2 * (x * m) <= 2 * (bound * h) + x,
{
    let a = 2 * m * d;
    let b = 2 * n * h + d;
    assert(x * a <= x * b) by (nonlinear_arith)
        requires
            a <= b,
            0 <= x,
    ;
    assert(x * a == (2 * (x * m)) * d) by (nonlinear_arith)
        requires
            a == 2 * m * d,
    ;
    assert(x * b == 2 * ((x * n) * h) + x * d) by (nonlinear_arith)
        requires
            b == 2 * n * h + d,
    ;
    assert((x * n) * h <= (bound * d) * h) by (nonlinear_arith)
        requires
            x * n <= bound * d,
            0 < h,
    ;
    assert(2 * ((bound * d) * h) + x * d == (2 * (bound * h) + x) * d) by (nonlinear_arith);
    let left = 2 * (x * m);
    let right = 2 * (bound * h) + x;
    assert(left <= right) by (nonlinear_arith)
        requires
            left * d <= right * d,
            0 < d,
    ;
}

/// A count times a quotient below 1, both roundings and the step to the nearest
/// integer taken together, does not pass an integer bound that the exact product
/// keeps to.
pub proof fn lemma_scaled_within(x: nat, n: nat, d: nat, bound: nat)
    requires
        0 < n < d <= 0x1_0000_0000,
        x < 0x1_0000_0000,
        x * n <= bound * d,
    ensures
        times_number(x, ratio53(n, d)) <= bound,
{
    lemma2_to64();
    lemma2_to64_rest();
    lemma_ratio_close(n, d);
    let (m, e) = ratio53(n, d);
    let up = (-e) as nat;
    let h = pow2(up);
    lemma_pow2_pos(up);
    let product = x * m;
    lemma_product_within(x as int, m as int, n as int, d as int, h as int, bound as int);
    lemma_pow2_adds(32, 20);
    if up > 52 {
        lemma_pow2_strictly_increases(52, up);
    }
    lemma_bit_length_bounds(product);
    lemma_pow2_adds(32, 53);
    assert(product < pow2(85)) by (nonlinear_arith)
        requires
            product == x * m,
            x < 0x1_0000_0000,
            m <= 0x20_0000_0000_0000,
            pow2(85) == 0x1_0000_0000 * 0x20_0000_0000_0000,
    ;
    lemma_bit_length_le(product, 85);
    let (p0, p1) = round53(product, e);
    let t = if bit_length(product) <= 53 {
        0nat
    } else {
        (bit_length(product) - 53) as nat
    };
    let c = pow2(t);
    lemma_pow2_pos(t);
    if t < 32 {
        lemma_pow2_strictly_increases(t, 32);
    }
    assert(2 * p0 * c <= 2 * product + c) by {
        if t > 0 {
            let whole = product / c;
            assert(c * whole <= product < c * whole + c && product % c == product - c * whole)
                by (nonlinear_arith)
                requires
                    whole == product / c,
                    c > 0,
            ;
            assert(2 * p0 * c <= 2 * product + c) by (nonlinear_arith)
                requires
                    p0 == whole || (p0 == whole + 1 && 2 * (product - c * whole) >= c),
                    c * whole <= product,
            ;
        }
    }
    let down = (up - t) as nat;
    let g = pow2(down);
    lemma_pow2_adds(down, t);
    lemma_pow2_pos(down);
    lemma_pow2_unfold((down + 1) as nat);
    assert((2 * p0) * c < (2 * bound + 1) * h) by (nonlinear_arith)
        requires
            2 * p0 * c <= 2 * product + c,
            2 * product <= 2 * (bound * h) + x,
            x + c < h,
    ;
    assert((2 * bound + 1) * h == ((2 * bound + 1) * g) * c) by (nonlinear_arith)
        requires
            h == g * c,
    ;
    let limit = (2 * bound + 1) * g;
    assert(2 * p0 < limit) by (nonlinear_arith)
        requires
            (2 * p0) * c < limit * c,
            c > 0,
    ;
    let above = pow2((down + 1) as nat);
    let z = (2 * p0 + g) / above;
    assert(above * z <= 2 * p0 + g) by (nonlinear_arith)
        requires
            z == (2 * p0 + g) / above,
            above > 0,
    ;
    assert(z <= bound) by (nonlinear_arith)
        requires
            2 * p0 < limit,
            limit == (2 * bound + 1) * g,
            above == 2 * g,
            above * z <= 2 * p0 + g,
            g > 0,
    ;
}

/// A frame number times a positive number, saturating.
pub fn rescale(frame: i32, number: Binary) -> (r: i32)
    requires
        number.m <= MANTISSA_END,
        -2000 <= number.e <= 2000,
    ensures
        r == rescaled(frame as int, (number.m as nat, number.e as int)),
{
    if frame >= 0 {
        match times_up_to(frame as u32, number, 0x7FFF_FFFF) {
            Some(v) => v as i32,
            None => i32::MAX,
        }
    } else {
        let magnitude: u32 = (-(frame as i64)) as u32;
        match times_up_to(magnitude, number, 0x8000_0000) {
            Some(v) => (-(v as i64)) as i32,
            None => i32::MIN,
        }
    }
}

/// A positive number stays positive when it is rounded to 53 bits.
proof fn lemma_round53_positive(p: nat, e: int)
    requires
        p > 0,
    ensures
        round53(p, e).0 > 0,
{
    lemma2_to64();
    lemma2_to64_rest();
    lemma_bit_length_bounds(p);
    if bit_length(p) > 53 {
        let s = (bit_length(p) - 53) as nat;
        lemma_pow2_adds(s, 52);
        lemma_pow2_pos(s);
        let d = pow2(s);
        assert(p / d >= 1) by (nonlinear_arith)
            requires
                p >= d * 0x10_0000_0000_0000,
                d > 0,
        ;
    }
}

/// The frames that the source span of a clip takes at another speed; `None` where
/// that does not fit a frame number.
pub fn retime(count: i32, speed: Real, new_speed: Real) -> (r: Option<i32>)
    requires
        0 < count,
        finite_positive(speed),
        finite_positive(new_speed),
    ensures
        r == ({
            let v = retimed_frames(count as nat, speed, new_speed);
            if v <= i32::MAX {
                Some(v as i32)
            } else {
                None
            }
        }),
{
    let f = speed.parts();
    let g = new_speed.parts();
    proof {
        lemma_mantissa_positive(speed);
        lemma_mantissa_positive(new_speed);
        let m = f.m;
        assert(count * m <= 0x8000_0000 * 0x20_0000_0000_0000) by (nonlinear_arith)
            requires
                0 <= count < 0x8000_0000,
                0 <= m <= 0x20_0000_0000_0000,
        ;
        assert(0 < count * m) by (nonlinear_arith)
            requires
                0 < count,
                0 < m,
        ;
    }
    let product: u128 = count as u128 * f.m;
    let span = round_53(product, f.e);
    proof {
        lemma_round53_small(product as nat, f.e as int);
        lemma_round53_positive(product as nat, f.e as int);
    }
    let q = ratio_53(span.m as u64, g.m as u64);
    match nearest_up_to(Binary { m: q.m, e: q.e + span.e - g.e }, 0x7FFF_FFFF) {
        Some(v) => Some(v as i32),
        None => None,
    }
}

/// A number other than zero has a mantissa other than zero.
proof fn lemma_mantissa_positive(r: Real)
    requires
        finite_positive(r),
    ensures
        mantissa(r) > 0,
{
    let b = r.bits as int;
    let l = LEADING as int;
    if exponent_field(r) == 0 {
        assert(b / l < 2048) by (nonlinear_arith)
            requires
                0 <= b < 0x8000_0000_0000_0000,
                l == 0x10_0000_0000_0000,
        ;
        assert(b == l * (b / l) + b % l) by (nonlinear_arith)
            requires
                l > 0,
        ;
    }
}

} // verus!
