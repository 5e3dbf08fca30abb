//! Encodings of numbers, and how products and quotients are rounded to frames.

use crate::binary64::LEADING;
use crate::binary64::apart_from_one;
use crate::binary64::bit_length;
use crate::binary64::ceil_int;
use crate::binary64::ceil_product;
use crate::binary64::exponent;
use crate::binary64::exponent_field;
use crate::binary64::finite;
use crate::binary64::finite_positive;
use crate::binary64::from_zero_to;
use crate::binary64::half_even;
use crate::binary64::lemma_bit_length_bounds;
use crate::binary64::less;
use crate::binary64::mantissa;
use crate::binary64::nan;
use crate::binary64::nearest_int;
use crate::binary64::rescaled;
use crate::binary64::round53;
use crate::binary64::same_number;
use crate::binary64::scaled_frames;
use crate::binary64::sign_bit;
use crate::binary64::times_number;
use crate::binary64::zero;
use crate::model::Real;
use vstd::arithmetic::power2::lemma_pow2_pos;
use vstd::arithmetic::power2::lemma_pow2_unfold;
use vstd::arithmetic::power2::pow2;
use vstd::prelude::*;

verus! {

/// The encoding without its sign.
pub open spec fn unsigned_bits(r: Real) -> int {
    if r.bits >= 0x8000_0000_0000_0000 {
        r.bits - 0x8000_0000_0000_0000
    } else {
        r.bits as int
    }
}

/// Which encodings are finite, NaN, zero or positive numbers, by where they lie among
/// all encodings.
pub proof fn law_encodings_are_told_apart(r: Real)
    ensures
        finite(r) <==> unsigned_bits(r) < 0x7FF0_0000_0000_0000,
        nan(r) <==> unsigned_bits(r) > 0x7FF0_0000_0000_0000,
        zero(r) <==> unsigned_bits(r) == 0,
        sign_bit(r) <==> r.bits != unsigned_bits(r),
        finite_positive(r) <==> 1 <= r.bits <= 0x7FEF_FFFF_FFFF_FFFF,
        finite(r) ==> unsigned_bits(r) == (if exponent(r) == -1074 && mantissa(r) < LEADING {
            mantissa(r) as int
        } else {
            (exponent(r) + 1074) * LEADING + mantissa(r)
        }),
{
    let b = r.bits as int;
    let l = LEADING as int;
    let u = unsigned_bits(r);
    let q = u / l;
    assert(b / l == (if b >= 0x8000_0000_0000_0000 {
        q + 2048
    } else {
        q
    }) && b % l == u % l && 0 <= q < 2048 && u == q * l + u % l && 0 <= u % l < l)
        by (nonlinear_arith)
        requires
            l == 0x10_0000_0000_0000,
            0 <= b < 0x1_0000_0000_0000_0000,
            u == (if b >= 0x8000_0000_0000_0000 {
                b - 0x8000_0000_0000_0000
            } else {
                b
            }),
            q == u / l,
    ;
    assert(exponent_field(r) == q);
}

/// Two encodings stand for the same number exactly when neither is a NaN and they are
/// the same or both zeros. The relation goes both ways, chains, and keeps numbers of
/// different order apart.
pub proof fn law_same_numbers(a: Real, b: Real, c: Real)
    ensures
        same_number(a, a) <==> !nan(a),
        same_number(a, b) == same_number(b, a),
        same_number(a, b) && same_number(b, c) ==> same_number(a, c),
        zero(a) && zero(b) ==> same_number(a, b),
        same_number(a, b) && !zero(a) ==> a.bits == b.bits,
        same_number(a, b) ==> !less(a, b) && !less(b, a),
        !nan(a) && !nan(b) && !same_number(a, b) ==> less(a, b) || less(b, a),
        less(a, b) && less(b, c) ==> less(a, c),
        less(a, b) ==> !less(b, a),
        sign_bit(a) && !sign_bit(b) && !nan(a) && !nan(b) && !(zero(a) && zero(b)) ==> less(a, b),
        !sign_bit(a) && !sign_bit(b) && !nan(a) && !nan(b) ==> (less(a, b) <==> a.bits < b.bits),
        sign_bit(a) && sign_bit(b) && !nan(a) && !nan(b) ==> (less(a, b) <==> a.bits > b.bits),
{
    law_encodings_are_told_apart(a);
    law_encodings_are_told_apart(b);
    law_encodings_are_told_apart(c);
}

/// A number from 0 to a positive one: no less than zero and no greater than it.
pub proof fn law_ranges_from_zero(r: Real, top: Real)
    requires
        finite_positive(top),
    ensures
        from_zero_to(r, top) <==> !nan(r) && !less(r, Real { bits: 0 }) && !less(top, r),
{
    law_encodings_are_told_apart(r);
    law_encodings_are_told_apart(top);
    law_encodings_are_told_apart(Real { bits: 0 });
}

/// A number lies apart from 1 exactly when it differs from it by more than the distance
/// to the next larger number, counted in the units of its own size.
pub proof fn law_apart_from_one(r: Real)
    requires
        finite_positive(r),
    ensures
        exponent(r) == -52 ==> (apart_from_one(r) <==> mantissa(r) > LEADING + 1),
        exponent(r) == -53 ==> (apart_from_one(r) <==> 2 * LEADING - mantissa(r) > 2),
        exponent(r) != -52 && exponent(r) != -53 ==> apart_from_one(r),
{
    law_encodings_are_told_apart(r);
    assert(mantissa(r) < 2 * LEADING && (exponent(r) != -1074 ==> mantissa(r) >= LEADING)) by {
        let b = r.bits as int;
        let l = LEADING as int;
        assert(0 <= b % l < l) by (nonlinear_arith)
            requires
                l > 0,
        ;
    }
}

/// Rounding a quotient gives an integer no further from it than any other; on a tie the
/// even one.
pub proof fn law_quotients_round_to_nearest(n: nat, d: nat)
    requires
        d > 0,
    ensures
        2 * (n - half_even(n, d) * d) <= d,
        2 * (half_even(n, d) * d - n) <= d,
        2 * (n - half_even(n, d) * d) == d || 2 * (half_even(n, d) * d - n) == d ==> half_even(n, d)
            % 2 == 0,
{
    let q = n / d;
    let r = n % d;
    assert(n == q * d + r && 0 <= r < d) by (nonlinear_arith)
        requires
            d > 0,
            q == n / d,
            r == n % d,
    ;
    assert((q + 1) * d == q * d + d) by (nonlinear_arith);
}

/// Rounding to 53 significant bits leaves a number of at most 53 as it is, and moves a
/// longer one by no more than half of its last remaining bit.
pub proof fn law_numbers_round_to_53_bits(p: nat, e: int)
    ensures
        p < 0x20_0000_0000_0000 ==> round53(p, e) == (p, e),
        ({
            let (m, f) = round53(p, e);
            let s = f - e;
            &&& s >= 0
            &&& 2 * (p - m * pow2(s as nat)) <= pow2(s as nat)
            &&& 2 * (m * pow2(s as nat) - p) <= pow2(s as nat)
            &&& s > 0 ==> p >= pow2((s + 52) as nat)
        }),
{
    lemma_bit_length_bounds(p);
    vstd::arithmetic::power2::lemma2_to64();
    vstd::arithmetic::power2::lemma2_to64_rest();
    if bit_length(p) <= 53 {
        assert(p * pow2(0) == p) by (nonlinear_arith)
            requires
                pow2(0) == 1,
        ;
    } else {
        let s = (bit_length(p) - 53) as nat;
        lemma_pow2_pos(s);
        law_quotients_round_to_nearest(p, pow2(s));
        if p < 0x20_0000_0000_0000 {
            if bit_length(p) - 1 > 53 {
                vstd::arithmetic::power2::lemma_pow2_strictly_increases(
                    53,
                    (bit_length(p) - 1) as nat,
                );
            }
        }
    }
}

/// The integer nearest to a binary fraction: no further from it than half, and above it
/// on a tie; the least integer that is not below it.
pub proof fn law_fractions_round_to_integers(m: nat, f: nat)
    requires
        f > 0,
    ensures
        ({
            let k = nearest_int(m, -(f as int));
            &&& 2 * k * pow2(f) <= 2 * m + pow2(f)
            &&& 2 * m + pow2(f) < 2 * (k + 1) * pow2(f)
        }),
        ({
            let k = ceil_int(m, -(f as int));
            &&& m <= k * pow2(f)
            &&& (k - 1) * pow2(f) < m
        }),
        nearest_int(m, f as int) == m * pow2(f),
        ceil_int(m, f as int) == m * pow2(f),
{
    lemma_pow2_pos(f);
    lemma_pow2_unfold(f + 1);
    let h = pow2(f) as int;
    let a = 2 * m + h;
    let k = nearest_int(m, -(f as int)) as int;
    assert(k == a / (2 * h));
    assert(2 * k * h <= a && a < 2 * (k + 1) * h) by (nonlinear_arith)
        requires
            h > 0,
            k == a / (2 * h),
    ;
    let c = ceil_int(m, -(f as int)) as int;
    let b = m + h - 1;
    assert(b >= 0);
    assert(b / h >= 0) by (nonlinear_arith)
        requires
            b >= 0,
            h > 0,
    ;
    assert(c == b / h);
    assert(m <= c * h && (c - 1) * h < m) by (nonlinear_arith)
        requires
            h > 0,
            c == b / h,
            b == m + h - 1,
    ;
}

/// A count of frames times a factor is the exact product, rounded to 53 bits and then to
/// the nearest integer, or up; rescaling a frame number rounds alike on both sides of
/// zero and stops at the largest frame numbers.
pub proof fn law_products_are_rounded_twice(count: nat, factor: Real, frame: int, number: (nat, int))
    ensures
        ({
            let (m, e) = round53((count * mantissa(factor)) as nat, exponent(factor));
            &&& scaled_frames(count, factor) == nearest_int(m, e)
            &&& ceil_product(count, factor) == ceil_int(m, e)
        }),
        i32::MIN <= rescaled(frame, number) <= i32::MAX,
        frame >= 0 && times_number(frame as nat, number) <= i32::MAX ==> rescaled(frame, number)
            == times_number(frame as nat, number) && rescaled(-frame, number) == -rescaled(
            frame,
            number,
        ),
        times_number(count, (mantissa(factor), exponent(factor))) == scaled_frames(count, factor),
{
    if frame == 0 {
        assert(0 * number.0 == 0) by (nonlinear_arith);
        let e = number.1;
        assert(round53(0, e) == (0nat, e));
        if e >= 0 {
            assert(0 * pow2(e as nat) == 0) by (nonlinear_arith);
        } else {
            let d = pow2((-e) as nat);
            lemma_pow2_pos((-e) as nat);
            lemma_pow2_unfold((1 - e) as nat);
            assert((2 * 0 + d) / (2 * d) == 0) by (nonlinear_arith)
                requires
                    d > 0,
            ;
        }
    }
}

} // verus!
