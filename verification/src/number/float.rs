//! IEEE-754 doubles as bit patterns.
//!
//! A double is carried as the 64 bits of its binary64 form: one sign bit,
//! eleven bits of exponent and fifty-two of significand. What can be decided
//! on the bits is decided here; the four rules of arithmetic, powers, and
//! the decimal forms are the caller's.
use vstd::prelude::*;
use vstd::arithmetic::power2::pow2;
use vstd::std_specs::bits::u64_leading_zeros;
use crate::number::float_value::{
    lemma_comparisons_are_those_of_values, lemma_float_to_integer_is_exact,
    lemma_int_to_float_is_nearest, nearest_double, scaled_magnitude, scaled_value, spec_is_finite,
    stands_for,
};

verus! {

/// The sign bit.
pub const SIGN_MASK: u64 = 0x8000_0000_0000_0000;
/// All bits but the sign bit.
pub const MAGNITUDE_MASK: u64 = 0x7fff_ffff_ffff_ffff;
/// The bits of the significand field.
pub const MANTISSA_MASK: u64 = 0x000f_ffff_ffff_ffff;
/// The bit above the significand field, which a normal double has without
/// storing it.
pub const HIDDEN_BIT: u64 = 0x0010_0000_0000_0000;
/// The bits of positive infinity. Every pattern above it, sign aside, is a NaN.
pub const INFINITY_BITS: u64 = 0x7ff0_0000_0000_0000;

/// The pattern with its sign bit cleared.
pub open spec fn magnitude(x: u64) -> u64 {
    x & MAGNITUDE_MASK
}

/// Is the sign bit set?
pub open spec fn is_negative(x: u64) -> bool {
    x & SIGN_MASK != 0
}

/// The exponent field.
pub open spec fn exponent(x: u64) -> u64 {
    (x >> 52) & 0x7ff
}

/// The significand field.
pub open spec fn mantissa(x: u64) -> u64 {
    x & MANTISSA_MASK
}

/// Is the pattern a NaN: all exponent bits set, and a significand that is not zero?
pub open spec fn spec_is_nan(x: u64) -> bool {
    magnitude(x) > INFINITY_BITS
}

/// Is the pattern one of the two zeros?
pub open spec fn spec_is_zero(x: u64) -> bool {
    magnitude(x) == 0
}

/// The place of a double in the order of the doubles that are no NaN. The
/// format is sign and magnitude, and magnitudes are ordered as their bits
/// are, so the place is the magnitude, negated under a sign. The two zeros
/// share a place.
pub open spec fn order_key(x: u64) -> int {
    if is_negative(x) {
        -(magnitude(x) as int)
    } else {
        magnitude(x) as int
    }
}

/// Equality of doubles: a NaN equals nothing, the two zeros are equal.
pub open spec fn spec_float_eq(x: u64, y: u64) -> bool {
    !spec_is_nan(x) && !spec_is_nan(y) && order_key(x) == order_key(y)
}

/// The strict order of doubles: a NaN is not below or above anything.
pub open spec fn spec_float_lt(x: u64, y: u64) -> bool {
    !spec_is_nan(x) && !spec_is_nan(y) && order_key(x) < order_key(y)
}

/// The order of doubles: a NaN is not below or above anything.
pub open spec fn spec_float_le(x: u64, y: u64) -> bool {
    !spec_is_nan(x) && !spec_is_nan(y) && order_key(x) <= order_key(y)
}

/// The double of the opposite sign.
pub open spec fn spec_float_neg(x: u64) -> u64 {
    x ^ SIGN_MASK
}

/// The magnitude of a machine integer.
pub open spec fn int_magnitude(i: i64) -> u64 {
    if i < 0 {
        (-(i as int)) as u64
    } else {
        i as u64
    }
}

/// The place of the highest bit that is set in `m`, which is not zero.
pub open spec fn top_bit(m: u64) -> int {
    63 - u64_leading_zeros(m)
}

/// The exponent and significand fields of the double nearest to a
/// magnitude `m` whose highest set bit is bit `e`. Up to bit 52 the
/// magnitude fits the significand as it is. Above that the low `e - 52`
/// bits are cut off and the rest is rounded to nearest, a tie to the even
/// neighbour; a carry out of the significand lands in the exponent field,
/// which is where it belongs.
pub open spec fn round_magnitude(m: u64, e: int) -> u64 {
    let base = ((1023 + e) as u64) << 52;
    if e <= 52 {
        base | ((m << ((52 - e) as u64)) & MANTISSA_MASK)
    } else {
        let sh = (e - 52) as u64;
        let q = m >> sh;
        let rem = m & (((1u64 << sh) - 1) as u64);
        let half = 1u64 << ((sh - 1) as u64);
        let up: u64 = if rem > half || (rem == half && q & 1 == 1) {
            1
        } else {
            0
        };
        ((base | (q & MANTISSA_MASK)) + up) as u64
    }
}

/// The double nearest to the integer `i`, ties to even.
pub open spec fn spec_int_to_float(i: i64) -> u64 {
    if i == 0 {
        0
    } else {
        let sign: u64 = if i < 0 {
            SIGN_MASK
        } else {
            0
        };
        sign | round_magnitude(int_magnitude(i), top_bit(int_magnitude(i)))
    }
}

/// The integer that a double stands for, where it stands for one that a
/// machine integer can hold. Zeros give zero. A double below one in
/// magnitude, an infinity or a NaN gives none. Otherwise the significand
/// with its hidden bit, shifted by the exponent, is the magnitude: none if
/// bits below the point are set or the magnitude does not fit.
pub open spec fn spec_float_to_integer(x: u64) -> Option<i64> {
    let e = exponent(x);
    let m = mantissa(x);
    if e == 0 {
        if m == 0 {
            Some(0i64)
        } else {
            None
        }
    } else if e < 1023 || e > 1086 {
        None
    } else if e == 1086 {
        if is_negative(x) && m == 0 {
            Some(i64::MIN)
        } else {
            None
        }
    } else {
        let sig = m | HIDDEN_BIT;
        let sh = (e - 1023) as u64;
        if sh >= 52 {
            let v = sig << ((sh - 52) as u64);
            if is_negative(x) {
                Some((-(v as int)) as i64)
            } else {
                Some(v as i64)
            }
        } else {
            let frac = (52 - sh) as u64;
            if sig & (((1u64 << frac) - 1) as u64) != 0 {
                None
            } else if is_negative(x) {
                Some((-((sig >> frac) as int)) as i64)
            } else {
                Some((sig >> frac) as i64)
            }
        }
    }
}

/// Is the double a NaN?
pub fn is_nan(x: u64) -> (r: bool)
    ensures
        r == spec_is_nan(x),
{
    (x & MAGNITUDE_MASK) > INFINITY_BITS
}

/// Is the double one of the two zeros?
pub fn is_zero(x: u64) -> (r: bool)
    ensures
        r == spec_is_zero(x),
{
    (x & MAGNITUDE_MASK) == 0
}

/// The place of a double in the order; see `order_key`.
fn key_of(x: u64) -> (r: i64)
    ensures
        r == order_key(x),
{
    let m = x & MAGNITUDE_MASK;
    assert(m <= 0x7fff_ffff_ffff_ffff) by (bit_vector)
        requires
            m == x & 0x7fff_ffff_ffff_ffff,
    ;
    if x & SIGN_MASK != 0 {
        -(m as i64)
    } else {
        m as i64
    }
}

/// Are the two doubles equal: is neither a NaN, and do they stand for the
/// same number?
pub fn float_eq(x: u64, y: u64) -> (r: bool)
    ensures
        r == spec_float_eq(x, y),
        r == (!spec_is_nan(x) && !spec_is_nan(y) && scaled_value(x) == scaled_value(y)),
{
    proof {
        lemma_comparisons_are_those_of_values(x, y);
    }
    !is_nan(x) && !is_nan(y) && key_of(x) == key_of(y)
}

/// Is `x` below `y`: is neither a NaN, and is the number that `x` stands
/// for below that of `y`?
pub fn float_lt(x: u64, y: u64) -> (r: bool)
    ensures
        r == spec_float_lt(x, y),
        r == (!spec_is_nan(x) && !spec_is_nan(y) && scaled_value(x) < scaled_value(y)),
{
    proof {
        lemma_comparisons_are_those_of_values(x, y);
    }
    !is_nan(x) && !is_nan(y) && key_of(x) < key_of(y)
}

/// Is `x` below `y` or equal to it: is neither a NaN, and is the number
/// that `x` stands for not above that of `y`?
pub fn float_le(x: u64, y: u64) -> (r: bool)
    ensures
        r == spec_float_le(x, y),
        r == (!spec_is_nan(x) && !spec_is_nan(y) && scaled_value(x) <= scaled_value(y)),
{
    proof {
        lemma_comparisons_are_those_of_values(x, y);
    }
    !is_nan(x) && !is_nan(y) && key_of(x) <= key_of(y)
}

/// The double of the opposite sign.
pub fn float_neg(x: u64) -> (r: u64)
    ensures
        r == spec_float_neg(x),
{
    x ^ SIGN_MASK
}

/// The double nearest to `i`, ties to even.
pub fn int_to_float(i: i64) -> (r: u64)
    ensures
        r == spec_int_to_float(i),
        !spec_is_nan(r),
        spec_is_finite(r),
        i != 0 ==> is_negative(r) == (i < 0),
        scaled_magnitude(r) == nearest_double(int_magnitude(i)) * pow2(1074),
{
    proof {
        lemma_int_to_float_is_nearest(i);
    }
    if i == 0 {
        assert(!spec_is_nan(0)) by (bit_vector);
        return 0;
    }
    let sign: u64 = if i < 0 {
        SIGN_MASK
    } else {
        0
    };
    let m: u64 = if i < 0 {
        if i == i64::MIN {
            0x8000_0000_0000_0000
        } else {
            (-i) as u64
        }
    } else {
        i as u64
    };
    assert(m == int_magnitude(i));
    let lz = m.leading_zeros();
    proof {
        vstd::std_specs::bits::axiom_u64_leading_zeros(m);
    }
    let e: u64 = 63 - lz as u64;
    assert(e as int == top_bit(m));
    let base: u64 = (1023 + e) << 52;
    let body: u64 = if e <= 52 {
        base | ((m << (52 - e)) & MANTISSA_MASK)
    } else {
        let sh: u64 = e - 52;
        let q: u64 = m >> sh;
        assert((1u64 << sh) >= 1) by (bit_vector)
            requires
                sh < 64,
        ;
        let rem: u64 = m & ((1u64 << sh) - 1);
        let half: u64 = 1u64 << (sh - 1);
        let up: u64 = if rem > half || (rem == half && q & 1 == 1) {
            1
        } else {
            0
        };
        assert((base | (q & 0x000f_ffff_ffff_ffff)) < 0x7ff0_0000_0000_0000) by (bit_vector)
            requires
                base == ((1023 + e) as u64) << 52,
                e <= 63,
        ;
        (base | (q & MANTISSA_MASK)) + up
    };
    assert(body == round_magnitude(m, e as int));
    assert(body <= 0x7ff0_0000_0000_0000) by {
        if e <= 52 {
            let y: u64 = m << ((52 - e) as u64);
            assert((base | (y & 0x000f_ffff_ffff_ffff)) <= 0x7ff0_0000_0000_0000) by (bit_vector)
                requires
                    base == ((1023 + e) as u64) << 52,
                    e <= 63,
            ;
        }
    }
    assert(!spec_is_nan(sign | body)) by (bit_vector)
        requires
            body <= 0x7ff0_0000_0000_0000,
            sign == 0x8000_0000_0000_0000 || sign == 0,
    ;
    sign | body
}

/// The integer that the double stands for, if it stands for one that fits.
pub fn float_to_integer(x: u64) -> (r: Option<i64>)
    ensures
        r == spec_float_to_integer(x),
        match r {
            Some(i) => stands_for(x, i as int),
            None => forall|i: int| i64::MIN <= i <= i64::MAX ==> !#[trigger] stands_for(x, i),
        },
{
    proof {
        lemma_float_to_integer_is_exact(x);
    }
    let e: u64 = (x >> 52) & 0x7ff;
    let m: u64 = x & MANTISSA_MASK;
    let negative = x & SIGN_MASK != 0;
    if e == 0 {
        if m == 0 {
            Some(0)
        } else {
            None
        }
    } else if e < 1023 || e > 1086 {
        None
    } else if e == 1086 {
        if negative && m == 0 {
            Some(i64::MIN)
        } else {
            None
        }
    } else {
        let sig: u64 = m | HIDDEN_BIT;
        let sh: u64 = e - 1023;
        if sh >= 52 {
            let d: u64 = sh - 52;
            let v: u64 = sig << d;
            assert(v <= 0x7fff_ffff_ffff_ffff) by (bit_vector)
                requires
                    v == sig << d,
                    sig == (x & 0x000f_ffff_ffff_ffff) | 0x0010_0000_0000_0000,
                    d <= 10,
            ;
            if negative {
                Some(-(v as i64))
            } else {
                Some(v as i64)
            }
        } else {
            let frac: u64 = 52 - sh;
            assert((1u64 << frac) >= 1) by (bit_vector)
                requires
                    frac < 64,
            ;
            let low: u64 = sig & ((1u64 << frac) - 1);
            let v: u64 = sig >> frac;
            assert(v <= 0x7fff_ffff_ffff_ffff) by (bit_vector)
                requires
                    v == sig >> frac,
                    1 <= frac <= 52,
            ;
            if low != 0 {
                None
            } else if negative {
                Some(-(v as i64))
            } else {
                Some(v as i64)
            }
        }
    }
}

/// The double nearest to an integer is never a NaN.
pub proof fn lemma_int_to_float_not_nan(i: i64)
    ensures
        !spec_is_nan(spec_int_to_float(i)),
{
    if i == 0 {
        assert(!spec_is_nan(0)) by (bit_vector);
    } else {
        let m = int_magnitude(i);
        vstd::std_specs::bits::axiom_u64_leading_zeros(m);
        let e = top_bit(m) as u64;
        let base: u64 = ((1023 + e) as u64) << 52;
        let body = round_magnitude(m, e as int);
        let sign: u64 = if i < 0 {
            SIGN_MASK
        } else {
            0
        };
        if e <= 52 {
            let y: u64 = m << ((52 - e) as u64);
            assert((base | (y & 0x000f_ffff_ffff_ffff)) <= 0x7ff0_0000_0000_0000) by (bit_vector)
                requires
                    base == ((1023 + e) as u64) << 52,
                    e <= 63,
            ;
        } else {
            let q = m >> ((e - 52) as u64);
            assert((base | (q & 0x000f_ffff_ffff_ffff)) < 0x7ff0_0000_0000_0000) by (bit_vector)
                requires
                    base == ((1023 + e) as u64) << 52,
                    e <= 63,
            ;
        }
        assert(!spec_is_nan(sign | body)) by (bit_vector)
            requires
                body <= 0x7ff0_0000_0000_0000,
                sign == 0x8000_0000_0000_0000 || sign == 0,
        ;
    }
}

} // verus!
