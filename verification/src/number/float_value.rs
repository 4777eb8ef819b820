//! What the bits of a double stand for.
//!
//! A double that is no NaN and no infinity stands for the number
//! `s * 2^(u - 1074)`, where the significand `s` is the significand field
//! with the hidden bit of a normal double, and the unit exponent `u` is
//! the exponent field less one, or zero for a subnormal double. Times
//! `2^1074` that number is an integer, the scaled value. The functions
//! that work on the bits are held against it here.
use vstd::prelude::*;
use vstd::arithmetic::power2::{
    lemma2_to64, lemma2_to64_rest, lemma_pow2_adds, lemma_pow2_pos, lemma_pow2_strictly_increases,
    pow2,
};
use vstd::bits::{lemma_u64_low_bits_mask_is_mod, lemma_u64_shl_is_mul, lemma_u64_shr_is_div, low_bits_mask};
use vstd::std_specs::bits::u64_leading_zeros;
use crate::number::float::{
    exponent, int_magnitude, is_negative, magnitude, mantissa, order_key, round_magnitude,
    spec_float_eq, spec_float_le, spec_float_lt, spec_float_to_integer, spec_int_to_float,
    spec_is_nan, top_bit, HIDDEN_BIT, MANTISSA_MASK, SIGN_MASK,
};

verus! {

/// Is the double a number: no NaN and no infinity?
pub open spec fn spec_is_finite(x: u64) -> bool {
    exponent(x) != 0x7ff
}

/// The significand: the significand field, with the hidden bit where the
/// double is normal.
pub open spec fn significand(x: u64) -> nat {
    if exponent(x) == 0 {
        mantissa(x) as nat
    } else {
        (mantissa(x) + HIDDEN_BIT) as nat
    }
}

/// The unit exponent: the power of two that the lowest bit of the
/// significand stands for, times `2^1074`.
pub open spec fn unit_exponent(x: u64) -> nat {
    if exponent(x) == 0 {
        0
    } else {
        (exponent(x) - 1) as nat
    }
}

/// The magnitude of the double, times `2^1074`.
pub open spec fn scaled_magnitude(x: u64) -> nat {
    significand(x) * pow2(unit_exponent(x))
}

/// The number that the double stands for, times `2^1074`. For an infinity
/// this is what the next power of two would give.
pub open spec fn scaled_value(x: u64) -> int {
    if is_negative(x) {
        -(scaled_magnitude(x) as int)
    } else {
        scaled_magnitude(x) as int
    }
}

/// Does the double stand for the integer `i`?
pub open spec fn stands_for(x: u64, i: int) -> bool {
    spec_is_finite(x) && scaled_value(x) == i * pow2(1074)
}

/// The fields of a double lie within their widths, and make up its magnitude.
pub proof fn lemma_fields(x: u64)
    ensures
        exponent(x) <= 0x7ff,
        mantissa(x) < HIDDEN_BIT,
        magnitude(x) == exponent(x) * HIDDEN_BIT + mantissa(x),
        mantissa(x) | HIDDEN_BIT == mantissa(x) + HIDDEN_BIT,
        spec_is_nan(x) <==> exponent(x) == 0x7ff && mantissa(x) != 0,
{
    assert(((x >> 52) & 0x7ff) <= 0x7ff) by (bit_vector);
    assert((x & 0x000f_ffff_ffff_ffff) < 0x0010_0000_0000_0000) by (bit_vector);
    assert((x & 0x7fff_ffff_ffff_ffff) == ((x >> 52) & 0x7ff) * 0x0010_0000_0000_0000 + (x
        & 0x000f_ffff_ffff_ffff)) by (bit_vector);
    assert((x & 0x000f_ffff_ffff_ffff) | 0x0010_0000_0000_0000 == (x & 0x000f_ffff_ffff_ffff)
        + 0x0010_0000_0000_0000) by (bit_vector);
    assert(((x & 0x7fff_ffff_ffff_ffff) > 0x7ff0_0000_0000_0000) <==> (((x >> 52) & 0x7ff) == 0x7ff
        && (x & 0x000f_ffff_ffff_ffff) != 0)) by (bit_vector);
}

/// A number below `p` in magnitude, and not zero, is no multiple of `p`.
proof fn lemma_no_multiple_below(v: int, p: int, i: int)
    requires
        0 < v < p,
    ensures
        v != i * p,
        -v != i * p,
{
    assert(v != i * p && -v != i * p) by (nonlinear_arith)
        requires
            0 < v < p,
    ;
}

/// Multiples of a positive number are ordered as their factors are.
proof fn lemma_multiples_ordered(i: int, b: int, p: int)
    requires
        p > 0,
        i <= b,
    ensures
        i * p <= b * p,
{
    assert(i * p <= b * p) by (nonlinear_arith)
        requires
            p > 0,
            i <= b,
    ;
}

/// The integer that `float_to_integer` gives is the integer that the double
/// stands for; and where it gives none, the double stands for no integer
/// that a machine integer can hold.
pub proof fn lemma_float_to_integer_is_exact(x: u64)
    ensures
        match spec_float_to_integer(x) {
            Some(i) => stands_for(x, i as int),
            None => forall|i: int| i64::MIN <= i <= i64::MAX ==> !#[trigger] stands_for(x, i),
        },
{
    lemma_fields(x);
    lemma2_to64();
    lemma2_to64_rest();
    let e = exponent(x);
    let m = mantissa(x);
    let sig = significand(x) as int;
    let u = unit_exponent(x);
    let mag = scaled_magnitude(x) as int;
    let p = pow2(1074) as int;
    lemma_pow2_pos(1074);
    lemma_pow2_pos(u);
    if e == 0 {
        assert(pow2(0) == 1);
        assert(mag == m) by (nonlinear_arith)
            requires
                mag == m * 1,
        ;
        if m != 0 {
            lemma_pow2_strictly_increases(52, 1074);
            assert forall|i: int| i64::MIN <= i <= i64::MAX implies !#[trigger] stands_for(x, i) by {
                lemma_no_multiple_below(m as int, p, i);
            }
        } else {
            assert(0 == 0 * p);
        }
    } else if e < 1023 {
        // below one: less than 2^53 * 2^1021
        if u < 1021 {
            lemma_pow2_strictly_increases(u, 1021);
        }
        lemma_pow2_adds(53, 1021);
        assert(0 < mag < p) by (nonlinear_arith)
            requires
                mag == sig * pow2(u),
                0 < sig < pow2(53),
                0 < pow2(u) <= pow2(1021),
                p == pow2(53) * pow2(1021),
        ;
        assert forall|i: int| i64::MIN <= i <= i64::MAX implies !#[trigger] stands_for(x, i) by {
            lemma_no_multiple_below(mag, p, i);
        }
    } else if e >= 1086 {
        // from 2^63 on
        lemma_pow2_adds(52, 1085);
        lemma_pow2_adds(63, 1074);
        assert(pow2(52) * pow2(1085) == pow2(63) * p);
        if e > 1086 {
            lemma_pow2_strictly_increases(1085, u);
        }
        let top = pow2(63) * p;
        assert(mag >= top && (mag == top <==> (e == 1086 && m == 0))) by (nonlinear_arith)
            requires
                mag == sig * pow2(u),
                sig == m + pow2(52),
                0 <= m,
                top == pow2(52) * pow2(1085),
                pow2(52) > 0,
                pow2(1085) > 0,
                e == 1086 ==> u == 1085,
                e > 1086 ==> pow2(1085) < pow2(u),
                e >= 1086,
        ;
        if e == 1086 && is_negative(x) && m == 0 {
            assert(scaled_value(x) == (i64::MIN as int) * p) by (nonlinear_arith)
                requires
                    scaled_value(x) == -mag,
                    mag == pow2(63) * p,
                    pow2(63) == 0x8000_0000_0000_0000,
            ;
        } else {
            assert forall|i: int| i64::MIN <= i <= i64::MAX implies !#[trigger] stands_for(x, i) by {
                if e != 0x7ff {
                    if is_negative(x) {
                        lemma_multiples_ordered(-0x8000_0000_0000_0000, i, p);
                        assert(-0x8000_0000_0000_0000 * p == -top) by (nonlinear_arith)
                            requires
                                top == 0x8000_0000_0000_0000 * p,
                        ;
                        assert(mag > top);
                    } else {
                        lemma_multiples_ordered(i, 0x7fff_ffff_ffff_ffff, p);
                        assert(0x7fff_ffff_ffff_ffff * p < top) by (nonlinear_arith)
                            requires
                                top == 0x8000_0000_0000_0000 * p,
                                p > 0,
                        ;
                    }
                }
            }
        }
    } else {
        let sh = (e - 1023) as u64;
        let s64 = (m | HIDDEN_BIT) as u64;
        assert(s64 == sig);
        if sh >= 52 {
            let d = (sh - 52) as u64;
            if d < 10 {
                lemma_pow2_strictly_increases(d as nat, 10);
            }
            lemma_pow2_pos(d as nat);
            assert(sig * pow2(d as nat) <= 0x7fff_ffff_ffff_ffff) by (nonlinear_arith)
                requires
                    0 < sig < pow2(53),
                    0 < pow2(d as nat) <= pow2(10),
                    pow2(53) == 0x20_0000_0000_0000,
                    pow2(10) == 0x400,
            ;
            lemma_u64_shl_is_mul(s64, d);
            let v = s64 << d;
            assert(v == sig * pow2(d as nat));
            lemma_pow2_adds(d as nat, 1074);
            assert(mag == v * p) by (nonlinear_arith)
                requires
                    mag == sig * pow2(u),
                    v == sig * pow2(d as nat),
                    pow2(u) == pow2(d as nat) * p,
            ;
            assert(v <= 0x7fff_ffff_ffff_ffff);
            if is_negative(x) {
                assert(-mag == (-(v as int)) * p) by (nonlinear_arith)
                    requires
                        mag == v * p,
                ;
            }
        } else {
            let frac = (52 - sh) as u64;
            lemma_pow2_adds(frac as nat, u);
            assert(pow2(frac as nat) * pow2(u) == p);
            lemma_pow2_pos(frac as nat);
            lemma_pow2_strictly_increases(frac as nat, 53);
            // the bits below the point, and those above it
            assert(1u64 * pow2(frac as nat) <= u64::MAX) by (nonlinear_arith)
                requires
                    pow2(frac as nat) < pow2(53),
                    pow2(53) == 0x20_0000_0000_0000,
            ;
            lemma_u64_shl_is_mul(1u64, frac);
            assert(((1u64 << frac) - 1) as u64 == low_bits_mask(frac as nat));
            lemma_u64_low_bits_mask_is_mod(s64, frac as nat);
            lemma_u64_shr_is_div(s64, frac);
            let low = s64 & (((1u64 << frac) - 1) as u64);
            let q = s64 >> frac;
            let f = pow2(frac as nat) as int;
            assert(low == sig % f);
            assert(q == sig / f);
            assert(sig == f * q + low && 0 <= low < f) by (nonlinear_arith)
                requires
                    f > 0,
                    low == sig % f,
                    q == sig / f,
            ;
            if low != 0 {
                assert forall|i: int| i64::MIN <= i <= i64::MAX implies !#[trigger] stands_for(x, i) by {
                    if mag == i * p || -mag == i * p {
                        let j = if mag == i * p {
                            i
                        } else {
                            -i
                        };
                        assert(mag == j * p) by (nonlinear_arith)
                            requires
                                mag == i * p || -mag == i * p,
                                j == (if mag == i * p {
                                    i
                                } else {
                                    -i
                                }),
                        ;
                        // cancel the unit: the significand is a multiple of 2^frac
                        assert(sig == j * f) by (nonlinear_arith)
                            requires
                                mag == sig * pow2(u),
                                mag == j * p,
                                p == f * pow2(u),
                                pow2(u) > 0,
                        ;
                        assert(low == (q - j) * f * -1) by (nonlinear_arith)
                            requires
                                sig == j * f,
                                sig == f * q + low,
                        ;
                        assert(false) by (nonlinear_arith)
                            requires
                                low == (q - j) * f * -1,
                                0 < low < f,
                        ;
                    }
                }
            } else {
                assert(mag == q * p) by (nonlinear_arith)
                    requires
                        mag == sig * pow2(u),
                        sig == f * q,
                        p == f * pow2(u),
                ;
                assert(q <= 0x7fff_ffff_ffff_ffff) by (nonlinear_arith)
                    requires
                        sig == f * q,
                        f >= 1,
                        sig < 0x20_0000_0000_0000,
                        q >= 0,
                ;
                if is_negative(x) {
                    assert(-mag == (-(q as int)) * p) by (nonlinear_arith)
                        requires
                            mag == q * p,
                    ;
                }
            }
        }
    }
}

/// The scaled magnitude of a double with the exponent field `e` and the
/// significand field `m`.
pub open spec fn scaled_of(e: nat, m: nat) -> nat {
    if e == 0 {
        m * pow2(0)
    } else {
        (m + HIDDEN_BIT) as nat * pow2((e - 1) as nat)
    }
}

/// Doubles grow with their fields: with the exponent field, and, where
/// the exponent fields are equal, with the significand field.
pub proof fn lemma_scaled_grows(e1: nat, m1: nat, e2: nat, m2: nat)
    requires
        m1 < HIDDEN_BIT,
        m2 < HIDDEN_BIT,
        e1 < e2 || (e1 == e2 && m1 < m2),
    ensures
        scaled_of(e1, m1) < scaled_of(e2, m2),
{
    lemma2_to64();
    lemma2_to64_rest();
    let h = HIDDEN_BIT as int;
    if e1 == e2 {
        let u: nat = if e1 == 0 {
            0
        } else {
            (e1 - 1) as nat
        };
        lemma_pow2_pos(u);
        let sa: int = if e1 == 0 {
            m1 as int
        } else {
            m1 + h
        };
        let sz: int = if e1 == 0 {
            m2 as int
        } else {
            m2 + h
        };
        assert(sa * pow2(u) < sz * pow2(u)) by (nonlinear_arith)
            requires
                sa < sz,
                pow2(u) > 0,
        ;
    } else {
        let u2 = (e2 - 1) as nat;
        lemma_pow2_pos(u2);
        // what the smaller double stays below
        let bound: int = if e1 == 0 {
            h
        } else {
            h * pow2(e1)
        };
        if e1 == 0 {
            assert(pow2(0) == 1);
            assert(scaled_of(e1, m1) == m1) by (nonlinear_arith)
                requires
                    scaled_of(e1, m1) == m1 * 1,
            ;
            assert(h * pow2(u2) >= bound) by (nonlinear_arith)
                requires
                    pow2(u2) >= 1,
                    bound == h,
                    h > 0,
            ;
        } else {
            let u1 = (e1 - 1) as nat;
            lemma_pow2_pos(u1);
            lemma_pow2_adds(1, u1);
            assert(pow2(e1) == 2 * pow2(u1));
            assert(scaled_of(e1, m1) < bound) by (nonlinear_arith)
                requires
                    scaled_of(e1, m1) == (m1 + h) * pow2(u1),
                    m1 < h,
                    pow2(u1) > 0,
                    bound == h * (2 * pow2(u1)),
            ;
            if e1 < u2 {
                lemma_pow2_strictly_increases(e1, u2);
            }
            assert(h * pow2(u2) >= bound) by (nonlinear_arith)
                requires
                    pow2(u2) >= pow2(e1),
                    bound == h * pow2(e1),
                    h > 0,
            ;
        }
        assert(scaled_of(e2, m2) >= h * pow2(u2)) by (nonlinear_arith)
            requires
                scaled_of(e2, m2) == (m2 + h) * pow2(u2),
                m2 >= 0,
                pow2(u2) > 0,
        ;
    }
}

/// The order of the doubles by their bits is the order of the numbers that
/// they stand for: a double is below another by its place exactly where
/// its scaled value is below the other's, and they share a place exactly
/// where their scaled values are equal.
pub proof fn lemma_order_is_order_of_values(x: u64, y: u64)
    ensures
        order_key(x) < order_key(y) <==> scaled_value(x) < scaled_value(y),
        order_key(x) == order_key(y) <==> scaled_value(x) == scaled_value(y),
{
    lemma_fields(x);
    lemma_fields(y);
    lemma_fields(0);
    let (ex, mx) = (exponent(x) as nat, mantissa(x) as nat);
    let (ey, my) = (exponent(y) as nat, mantissa(y) as nat);
    assert(scaled_magnitude(x) == scaled_of(ex, mx));
    assert(scaled_magnitude(y) == scaled_of(ey, my));
    assert(pow2(0) == 1) by {
        lemma2_to64();
    }
    assert(scaled_of(0, 0) == 0);
    // the magnitudes are ordered as the pairs of fields are
    if magnitude(x) < magnitude(y) {
        lemma_scaled_grows(ex, mx, ey, my);
    } else if magnitude(y) < magnitude(x) {
        lemma_scaled_grows(ey, my, ex, mx);
    }
    if magnitude(x) > 0 {
        lemma_scaled_grows(0, 0, ex, mx);
    }
    if magnitude(y) > 0 {
        lemma_scaled_grows(0, 0, ey, my);
    }
}

/// Equality and order of doubles, as the functions on the bits decide
/// them, are those of the numbers that the doubles stand for.
pub proof fn lemma_comparisons_are_those_of_values(x: u64, y: u64)
    ensures
        spec_float_eq(x, y) <==> !spec_is_nan(x) && !spec_is_nan(y) && scaled_value(x)
            == scaled_value(y),
        spec_float_lt(x, y) <==> !spec_is_nan(x) && !spec_is_nan(y) && scaled_value(x)
            < scaled_value(y),
        spec_float_le(x, y) <==> !spec_is_nan(x) && !spec_is_nan(y) && scaled_value(x)
            <= scaled_value(y),
{
    lemma_order_is_order_of_values(x, y);
}

/// The multiple of `2^k` that is nearest to `v`; of two that are equally
/// near, the even multiple.
pub open spec fn round_to_multiple(v: nat, k: nat) -> nat {
    let unit = pow2(k);
    let q = v / unit;
    let rest = v % unit;
    if 2 * rest > unit || (2 * rest == unit && q % 2 == 1) {
        (q + 1) * unit
    } else {
        q * unit
    }
}

/// The integer that the double nearest to the integer `v` stands for. An
/// integer whose highest bit is bit 52 or lower has a double of its own.
/// Above that the doubles are the multiples of `2^(e - 52)`, where bit `e`
/// is the highest bit of the integer.
pub open spec fn nearest_double(v: u64) -> nat {
    if v == 0 || top_bit(v) <= 52 {
        v as nat
    } else {
        round_to_multiple(v as nat, (top_bit(v) - 52) as nat)
    }
}

/// Rounding to a multiple gives a multiple that is at most half a unit
/// away, and an even multiple where it is exactly half a unit away.
pub proof fn lemma_round_to_multiple(v: nat, k: nat)
    ensures
        round_to_multiple(v, k) % pow2(k) == 0,
        2 * (round_to_multiple(v, k) - v) <= pow2(k),
        2 * (v - round_to_multiple(v, k)) <= pow2(k),
        2 * (round_to_multiple(v, k) - v) == pow2(k) || 2 * (v - round_to_multiple(v, k)) == pow2(k)
            ==> (round_to_multiple(v, k) / pow2(k)) % 2 == 0,
{
    let unit = pow2(k) as int;
    lemma_pow2_pos(k);
    let q = v as int / unit;
    let rest = v as int % unit;
    assert(v == unit * q + rest && 0 <= rest < unit) by (nonlinear_arith)
        requires
            unit > 0,
            q == v as int / unit,
            rest == v as int % unit,
    ;
    let r = round_to_multiple(v, k) as int;
    let up: int = if 2 * rest > unit || (2 * rest == unit && q % 2 == 1) {
        1
    } else {
        0
    };
    assert(r == (q + up) * unit);
    assert(r - v == up * unit - rest) by (nonlinear_arith)
        requires
            r == (q + up) * unit,
            v == unit * q + rest,
    ;
    assert(up * unit == if up == 1 {
        unit
    } else {
        0
    }) by (nonlinear_arith)
        requires
            up == 0 || up == 1,
    ;
    assert(r % unit == 0 && r / unit == q + up) by {
        vstd::arithmetic::div_mod::lemma_fundamental_div_mod_converse(r, unit, q + up, 0);
    }
}

/// The highest bit that is set in a number that is not zero: the number
/// is at least that power of two, and below the next.
pub proof fn lemma_top_bit(m: u64)
    requires
        m != 0,
    ensures
        0 <= top_bit(m) <= 63,
        m >> (top_bit(m) as u64) == 1,
        pow2(top_bit(m) as nat) <= m < 2 * pow2(top_bit(m) as nat),
{
    vstd::std_specs::bits::axiom_u64_leading_zeros(m);
    let lz = u64_leading_zeros(m);
    let e = (63 - lz) as u64;
    let above = (64 - lz) as u64;
    assert((m >> e) & 1 != 0);
    assert(m >> above == 0);
    assert(m >> e == 1) by (bit_vector)
        requires
            (m >> e) & 1 != 0,
            m >> above == 0,
            above == e + 1,
            e <= 63,
    ;
    lemma_u64_shr_is_div(m, e);
    lemma_pow2_pos(e as nat);
    let p = pow2(e as nat) as int;
    assert(p <= m < 2 * p) by (nonlinear_arith)
        requires
            p > 0,
            m as int / p == 1,
            m >= 0,
    ;
}

/// A sign, an exponent field and a significand field, put together, are
/// the fields of the double that they make.
proof fn lemma_packed(sign: u64, b: u64, mant: u64)
    requires
        sign == 0 || sign == SIGN_MASK,
        b <= 0x7ff,
        mant < HIDDEN_BIT,
    ensures
        (b << 52) | mant == (b << 52) + mant,
        (b << 52) == b * HIDDEN_BIT,
        exponent(sign | ((b << 52) | mant)) == b,
        mantissa(sign | ((b << 52) | mant)) == mant,
        is_negative(sign | ((b << 52) | mant)) == (sign != 0),
{
    assert((b << 52) | mant == (b << 52) + mant) by (bit_vector)
        requires
            b <= 0x7ff,
            mant < 0x0010_0000_0000_0000,
    ;
    assert((b << 52) == b * 0x0010_0000_0000_0000) by (bit_vector)
        requires
            b <= 0x7ff,
    ;
    assert((((sign | ((b << 52) | mant)) >> 52) & 0x7ff) == b) by (bit_vector)
        requires
            sign == 0 || sign == 0x8000_0000_0000_0000,
            b <= 0x7ff,
            mant < 0x0010_0000_0000_0000,
    ;
    assert(((sign | ((b << 52) | mant)) & 0x000f_ffff_ffff_ffff) == mant) by (bit_vector)
        requires
            sign == 0 || sign == 0x8000_0000_0000_0000,
            b <= 0x7ff,
            mant < 0x0010_0000_0000_0000,
    ;
    assert((((sign | ((b << 52) | mant)) & 0x8000_0000_0000_0000) != 0) == (sign != 0))
        by (bit_vector)
        requires
            sign == 0 || sign == 0x8000_0000_0000_0000,
            b <= 0x7ff,
            mant < 0x0010_0000_0000_0000,
    ;
}

/// The double that `int_to_float` gives is the double nearest to the
/// integer, ties to even: it is a number, it has the sign of the integer,
/// and it stands for the magnitude of the integer, rounded as
/// `nearest_double` says.
pub proof fn lemma_int_to_float_is_nearest(i: i64)
    ensures
        spec_is_finite(spec_int_to_float(i)),
        i != 0 ==> is_negative(spec_int_to_float(i)) == (i < 0),
        scaled_magnitude(spec_int_to_float(i)) == nearest_double(int_magnitude(i)) * pow2(1074),
{
    lemma2_to64();
    lemma2_to64_rest();
    let p = pow2(1074) as int;
    if i == 0 {
        lemma_fields(0);
        assert(exponent(0) == 0 && mantissa(0) == 0) by {
            assert(((0u64 >> 52) & 0x7ff) == 0) by (bit_vector);
            assert((0u64 & 0x000f_ffff_ffff_ffff) == 0) by (bit_vector);
        }
        assert(scaled_magnitude(0) == 0 * p) by (nonlinear_arith)
            requires
                scaled_magnitude(0) == 0 * pow2(0),
        ;
        return ;
    }
    let sign: u64 = if i < 0 {
        SIGN_MASK
    } else {
        0
    };
    let m = int_magnitude(i);
    lemma_top_bit(m);
    let e = top_bit(m) as u64;
    let b = (1023 + e) as u64;
    let base = b << 52;
    let body = round_magnitude(m, e as int);
    let r = spec_int_to_float(i);
    assert(r == sign | body);
    let low = pow2(e as nat) as int;
    lemma_pow2_pos(e as nat);
    if e <= 52 {
        let d = (52 - e) as u64;
        lemma_pow2_adds(e as nat, d as nat);
        lemma_pow2_pos(d as nat);
        let pd = pow2(d as nat) as int;
        assert(0x0010_0000_0000_0000 <= m * pd < 0x0020_0000_0000_0000) by (nonlinear_arith)
            requires
                low <= m < 2 * low,
                low * pd == 0x0010_0000_0000_0000,
                pd > 0,
        ;
        lemma_u64_shl_is_mul(m, d);
        let y = m << d;
        assert(y == m * pd);
        let mant = y & MANTISSA_MASK;
        assert(mant == y - 0x0010_0000_0000_0000) by (bit_vector)
            requires
                mant == y & 0x000f_ffff_ffff_ffff,
                0x0010_0000_0000_0000 <= y < 0x0020_0000_0000_0000,
        ;
        assert(body == base | mant);
        lemma_packed(sign, b, mant);
        assert(significand(r) == y);
        assert(unit_exponent(r) == 1022 + e);
        lemma_pow2_adds(d as nat, (1022 + e) as nat);
        assert(scaled_magnitude(r) == m * p) by (nonlinear_arith)
            requires
                scaled_magnitude(r) == y * pow2((1022 + e) as nat),
                y == m * pd,
                p == pd * pow2((1022 + e) as nat),
        ;
    } else {
        let sh = (e - 52) as u64;
        let ps = pow2(sh as nat) as int;
        lemma_pow2_pos(sh as nat);
        lemma_pow2_adds(52, sh as nat);
        assert(low == 0x0010_0000_0000_0000 * ps);
        // the bits that are kept, and those that are cut off
        lemma_u64_shr_is_div(m, sh);
        let q = m >> sh;
        assert(q == m as int / ps);
        if sh < 11 {
            lemma_pow2_strictly_increases(sh as nat, 11);
        }
        assert(ps <= 0x800);
        assert(1u64 * pow2(sh as nat) <= u64::MAX);
        lemma_u64_shl_is_mul(1u64, sh);
        assert(((1u64 << sh) - 1) as u64 == low_bits_mask(sh as nat));
        lemma_u64_low_bits_mask_is_mod(m, sh as nat);
        let rest = m & (((1u64 << sh) - 1) as u64);
        assert(rest == m as int % ps);
        let hs = (sh - 1) as u64;
        lemma_pow2_adds(1, hs as nat);
        lemma_pow2_pos(hs as nat);
        assert(1u64 * pow2(hs as nat) <= u64::MAX);
        lemma_u64_shl_is_mul(1u64, hs);
        let half = 1u64 << hs;
        assert(2 * half == ps);
        assert(m == ps * q + rest && 0 <= rest < ps) by (nonlinear_arith)
            requires
                ps > 0,
                q == m as int / ps,
                rest == m as int % ps,
        ;
        assert(0x0010_0000_0000_0000 <= q < 0x0020_0000_0000_0000) by (nonlinear_arith)
            requires
                m == ps * q + rest,
                0 <= rest < ps,
                0x0010_0000_0000_0000 * ps <= m < 2 * (0x0010_0000_0000_0000 * ps),
                ps > 0,
        ;
        assert((q & 1 == 1) == (q % 2 == 1)) by (bit_vector);
        let up: u64 = if rest > half || (rest == half && q & 1 == 1) {
            1
        } else {
            0
        };
        let rounds_up = 2 * rest > ps || (2 * rest == ps && q as int % 2 == 1);
        assert(rounds_up == (up == 1));
        let mant0 = q & MANTISSA_MASK;
        assert(mant0 == q - 0x0010_0000_0000_0000) by (bit_vector)
            requires
                mant0 == q & 0x000f_ffff_ffff_ffff,
                0x0010_0000_0000_0000 <= q < 0x0020_0000_0000_0000,
        ;
        lemma_packed(sign, b, mant0);
        assert(body == ((base | mant0) + up) as u64);
        assert(base | mant0 == base + mant0);
        assert(base == b * 0x0010_0000_0000_0000);
        let goal = nearest_double(m) as int;
        assert(goal == (q + up) * ps) by {
            assert(nearest_double(m) == round_to_multiple(m as nat, sh as nat));
        }
        lemma_pow2_adds(sh as nat, 1074);
        if mant0 + up < 0x0010_0000_0000_0000 {
            let mant = (mant0 + up) as u64;
            lemma_packed(sign, b, mant);
            assert(body == (b << 52) | mant);
            assert(significand(r) == q + up);
            assert(unit_exponent(r) == 1074 + sh);
            assert(scaled_magnitude(r) == goal * p) by (nonlinear_arith)
                requires
                    scaled_magnitude(r) == (q + up) * pow2((1074 + sh) as nat),
                    pow2((1074 + sh) as nat) == ps * p,
                    goal == (q + up) * ps,
            ;
        } else {
            // the significand has run over into the exponent
            let b1 = (b + 1) as u64;
            lemma_packed(sign, b1, 0);
            assert(body == (b1 << 52) | 0) by (bit_vector)
                requires
                    body == (b << 52) + 0x0010_0000_0000_0000,
                    b1 == b + 1,
                    b <= 0x7fe,
            ;
            assert(significand(r) == 0x0010_0000_0000_0000);
            assert(unit_exponent(r) == 1075 + sh);
            lemma_pow2_adds(1, (1074 + sh) as nat);
            assert(scaled_magnitude(r) == goal * p) by (nonlinear_arith)
                requires
                    scaled_magnitude(r) == 0x0010_0000_0000_0000 * pow2((1075 + sh) as nat),
                    pow2((1075 + sh) as nat) == 2 * pow2((1074 + sh) as nat),
                    pow2((1074 + sh) as nat) == ps * p,
                    goal == (q + up) * ps,
                    q + up == 0x0020_0000_0000_0000,
            ;
        }
    }
}

/// An integer comes back from the double nearest to it exactly where that
/// double stands for the integer itself: where rounding changes nothing.
pub proof fn lemma_lossless_round_trip(i: i64)
    ensures
        spec_float_to_integer(spec_int_to_float(i)) == Some(i) <==> nearest_double(int_magnitude(i))
            == int_magnitude(i),
{
    let r = spec_int_to_float(i);
    let p = pow2(1074) as int;
    let near = nearest_double(int_magnitude(i)) as int;
    let v = int_magnitude(i) as int;
    lemma_int_to_float_is_nearest(i);
    lemma_float_to_integer_is_exact(r);
    lemma_pow2_pos(1074);
    if i == 0 {
        assert(near == 0);
        assert(scaled_value(r) == 0 * p) by (nonlinear_arith)
            requires
                scaled_value(r) == 0 * p || scaled_value(r) == -(0 * p),
        ;
        assert(stands_for(r, 0));
        match spec_float_to_integer(r) {
            Some(j) => {
                assert(j == 0) by (nonlinear_arith)
                    requires
                        scaled_value(r) == 0 * p,
                        scaled_value(r) == j * p,
                        p > 0,
                ;
            },
            None => {
                assert(!stands_for(r, 0));
            },
        }
    } else {
        let signed: int = if i < 0 {
            -near
        } else {
            near
        };
        assert(scaled_value(r) == signed * p) by (nonlinear_arith)
            requires
                scaled_value(r) == (if i < 0 {
                    -(near * p)
                } else {
                    near * p
                }),
                signed == (if i < 0 {
                    -near
                } else {
                    near
                }),
        ;
        assert(stands_for(r, signed));
        assert((signed == i) <==> (near == v));
        match spec_float_to_integer(r) {
            Some(j) => {
                assert(j == signed) by (nonlinear_arith)
                    requires
                        scaled_value(r) == signed * p,
                        scaled_value(r) == j * p,
                        p > 0,
                ;
            },
            None => {
                if near == v {
                    assert(!stands_for(r, i as int));
                    assert(false);
                }
            },
        }
    }
}

} // verus!
