use vstd::prelude::*;

verus! {

/// The quotient of `a` by `b`, rounded towards minus infinity.
pub open spec fn floor_div(a: int, b: int) -> int
    recommends
        b != 0,
{
    if b > 0 || a % b == 0 {
        a / b
    } else {
        a / b - 1
    }
}

/// The remainder that goes with `floor_div`.
pub open spec fn floor_mod(a: int, b: int) -> int
    recommends
        b != 0,
{
    a - b * floor_div(a, b)
}

/// Floor division of machine integers. The one quotient that does not fit,
/// that of the least integer by minus one, wraps round to the least integer.
pub open spec fn spec_i_floor_div(a: i64, b: i64) -> i64
    recommends
        b != 0,
{
    if a == i64::MIN && b == -1 {
        i64::MIN
    } else {
        floor_div(a as int, b as int) as i64
    }
}

/// The remainder of floor division of machine integers.
pub open spec fn spec_i_mod(a: i64, b: i64) -> i64
    recommends
        b != 0,
{
    floor_mod(a as int, b as int) as i64
}

/// A left shift by `n` bits. A negative count shifts right. A count of 64 or
/// more, either way, leaves nothing.
pub open spec fn spec_shift_left(a: i64, n: int) -> i64 {
    if n >= 64 || n <= -64 {
        0
    } else if n >= 0 {
        a.wrapping_shl(n as u32)
    } else {
        a.wrapping_shr((-n) as u32)
    }
}

/// A right shift by `n` bits, which keeps the sign. A negative count shifts
/// left. A count of 64 or more, either way, leaves nothing.
pub open spec fn spec_shift_right(a: i64, n: int) -> i64 {
    if n >= 64 || n <= -64 {
        0
    } else if n >= 0 {
        a.wrapping_shr(n as u32)
    } else {
        a.wrapping_shl((-n) as u32)
    }
}

/// Euclidean division: the remainder is never negative and is smaller than
/// the divisor's magnitude.
pub proof fn lemma_euclid(a: int, b: int)
    requires
        b != 0,
    ensures
        b * (a / b) + a % b == a,
        0 <= a % b,
        b > 0 ==> a % b < b,
        b < 0 ==> a % b < -b,
{
    assert(b * (a / b) + a % b == a && 0 <= a % b && (b > 0 ==> a % b < b) && (b < 0 ==> a % b < -b))
        by (nonlinear_arith)
        requires
            b != 0,
    ;
}

/// What holds between a dividend, a divisor, and the quotient and remainder
/// of their floor division: the two make up the dividend again, and the
/// remainder is zero or has the sign of the divisor and is smaller than it.
pub proof fn lemma_floor_div_mod(a: int, b: int)
    requires
        b != 0,
    ensures
        floor_div(a, b) * b + floor_mod(a, b) == a,
        b > 0 ==> 0 <= floor_mod(a, b) < b,
        b < 0 ==> b < floor_mod(a, b) <= 0,
{
    lemma_euclid(a, b);
    let q = a / b;
    let r = a % b;
    let f = floor_div(a, b);
    assert(f * b == b * f) by (nonlinear_arith);
    if !(b > 0 || r == 0) {
        assert(b * (q - 1) == b * q - b) by (nonlinear_arith);
    }
}

/// Floor division and its remainder on machine integers make up the
/// dividend again, except where the quotient does not fit; the remainder is
/// zero or has the sign of the divisor.
pub proof fn lemma_i_floor_div_mod(a: i64, b: i64)
    requires
        b != 0,
    ensures
        !(a == i64::MIN && b == -1) ==> spec_i_floor_div(a, b) * b + spec_i_mod(a, b) == a,
        b > 0 ==> 0 <= spec_i_mod(a, b) < b,
        b < 0 ==> b < spec_i_mod(a, b) <= 0,
{
    lemma_floor_div_mod(a as int, b as int);
    lemma_floor_div_range(a, b);
    if a == i64::MIN && b == -1 {
        lemma_euclid(a as int, b as int);
        assert(floor_mod(a as int, b as int) == 0) by (nonlinear_arith)
            requires
                floor_div(a as int, b as int) * b + floor_mod(a as int, b as int) == a,
                floor_div(a as int, b as int) == -a,
                b == -1,
        ;
    }
}

/// The quotient of floor division fits a machine integer but in one case.
pub proof fn lemma_floor_div_range(a: i64, b: i64)
    requires
        b != 0,
    ensures
        !(a == i64::MIN && b == -1) ==> i64::MIN <= floor_div(a as int, b as int) <= i64::MAX,
        a == i64::MIN && b == -1 ==> floor_div(a as int, b as int) == -(a as int),
{
    lemma_floor_div_mod(a as int, b as int);
    let q = floor_div(a as int, b as int);
    let r = floor_mod(a as int, b as int);
    assert(!(a == i64::MIN && b == -1) ==> i64::MIN <= q <= i64::MAX) by (nonlinear_arith)
        requires
            q * b + r == a,
            b != 0,
            b > 0 ==> 0 <= r < b,
            b < 0 ==> b < r <= 0,
            i64::MIN <= a <= i64::MAX,
            i64::MIN <= b <= i64::MAX,
    ;
    assert(a == i64::MIN && b == -1 ==> q == -(a as int)) by (nonlinear_arith)
        requires
            q * b + r == a,
            b < 0 ==> b < r <= 0,
    ;
}

/// Floor division: the quotient rounded towards minus infinity.
pub fn i_floor_div(a: i64, b: i64) -> (r: i64)
    requires
        b != 0,
    ensures
        r == spec_i_floor_div(a, b),
{
    proof {
        lemma_floor_div_range(a, b);
        lemma_euclid(a as int, b as int);
    }
    if a == i64::MIN && b == -1 {
        return i64::MIN;
    }
    if b > 0 {
        match a.checked_div_euclid(b) {
            Some(q) => q,
            None => 0,
        }
    } else {
        assert(i64::MIN <= (a as int) / (b as int) <= i64::MAX) by (nonlinear_arith)
            requires
                b * ((a as int) / (b as int)) + (a as int) % (b as int) == a,
                0 <= (a as int) % (b as int) < -b,
                b < 0,
                !(a == i64::MIN && b == -1),
                i64::MIN <= a <= i64::MAX,
                i64::MIN <= b <= i64::MAX,
        ;
        let q = match a.checked_div_euclid(b) {
            Some(q) => q,
            None => 0,
        };
        let m = match a.checked_rem_euclid(b) {
            Some(m) => m,
            None => 0,
        };
        if m == 0 {
            q
        } else {
            q - 1
        }
    }
}

/// The remainder that goes with `i_floor_div`: zero, or of the divisor's sign.
pub fn i_mod(a: i64, b: i64) -> (r: i64)
    requires
        b != 0,
    ensures
        r == spec_i_mod(a, b),
{
    proof {
        lemma_i_floor_div_mod(a, b);
        lemma_euclid(a as int, b as int);
        if !(b > 0 || (a as int) % (b as int) == 0) {
            assert((b as int) * ((a as int) / (b as int) - 1) == (b as int) * ((a as int) / (b as int)) - b)
                by (nonlinear_arith);
        }
    }
    if b == -1 {
        return 0;
    }
    let e = match a.checked_rem_euclid(b) {
        Some(e) => e,
        None => 0,
    };
    if b > 0 || e == 0 {
        e
    } else {
        e + b
    }
}

/// Shifts `a` left by `n` bits; right where `n` is negative.
pub fn shift_left(a: i64, n: i64) -> (r: i64)
    ensures
        r == spec_shift_left(a, n as int),
{
    if n >= 64 || n <= -64 {
        0
    } else if n >= 0 {
        a.wrapping_shl(n as u32)
    } else {
        a.wrapping_shr((-n) as u32)
    }
}

/// Shifts `a` right by `n` bits, keeping the sign; left where `n` is negative.
pub fn shift_right(a: i64, n: i64) -> (r: i64)
    ensures
        r == spec_shift_right(a, n as int),
{
    if n >= 64 || n <= -64 {
        0
    } else if n >= 0 {
        a.wrapping_shr(n as u32)
    } else {
        a.wrapping_shl((-n) as u32)
    }
}

/// A left shift is the right shift by the opposite count, and a shift by 64
/// bits or more leaves nothing.
pub proof fn lemma_shift_opposite(a: i64, n: int)
    ensures
        spec_shift_left(a, n) == spec_shift_right(a, -n),
        spec_shift_right(a, n) == spec_shift_left(a, -n),
        n >= 64 ==> spec_shift_left(a, n) == 0 && spec_shift_right(a, n) == 0,
{
    assert(a << 0u32 == a >> 0u32) by (bit_vector);
}

} // verus!
