use lua_vm::number::math::{i_floor_div, i_mod, shift_left, shift_right};

#[test]
fn test_i_floor_div() {
    assert_eq!(i_floor_div(5, 3), 1);
    assert_eq!(i_floor_div(-5, 3), -2);
    assert_eq!(i_floor_div(5, -3), -2);
    assert_eq!(i_floor_div(-5, -3), 1);
}

#[test]
fn test_i_mod() {
    assert_eq!(i_mod(5, 3), 2);
    assert_eq!(i_mod(-5, 3), 1);
    assert_eq!(i_mod(5, -3), -1);
    assert_eq!(i_mod(-5, -3), -2);
}

#[test]
fn test_shift_left() {
    assert_eq!(shift_left(0xFF, 0), 0xFF);
    assert_eq!(shift_left(0xFF, 4), 0xFF0);
    assert_eq!(shift_left(0xFF, 8), 0xFF00);
    assert_eq!(shift_left(0xFF, -4), 0xF);
    assert_eq!(shift_left(0xFF, -8), 0x0);
    assert_eq!(shift_left(0xFF, 100), 0x0);
}

#[test]
fn test_shift_right() {
    assert_eq!(shift_right(0xFF, 0), 0xFF);
    assert_eq!(shift_right(0xFF, 4), 0xF);
    assert_eq!(shift_right(0xFF, 8), 0x0);
    assert_eq!(shift_right(0xFF, -4), 0xFF0);
    assert_eq!(shift_right(0xFF, -8), 0xFF00);
    assert_eq!(shift_right(0xFF, 100), 0x0);
}

#[test]
fn floor_division_and_remainder_make_up_the_dividend() {
    let samples = [-9i64, -8, -7, -3, -2, -1, 0, 1, 2, 3, 7, 8, 9, i64::MAX, i64::MIN, i64::MIN + 1];
    for a in samples {
        for b in samples {
            if b == 0 {
                continue;
            }
            let q = i_floor_div(a, b);
            let r = i_mod(a, b);
            assert_eq!(q.wrapping_mul(b).wrapping_add(r), a, "{} {}", a, b);
            if !(a == i64::MIN && b == -1) {
                assert_eq!(q as i128 * b as i128 + r as i128, a as i128, "{} {}", a, b);
            }
            assert!(r == 0 || (r < 0) == (b < 0), "{} {}", a, b);
            assert!((r as i128).abs() < (b as i128).abs(), "{} {}", a, b);
        }
    }
    assert_eq!(i_floor_div(i64::MIN, -1), i64::MIN);
    assert_eq!(i_mod(i64::MIN, -1), 0);
    assert_eq!(i_floor_div(7, 2), 3);
    assert_eq!(i_floor_div(-7, 2), -4);
    assert_eq!(i_mod(-7, 2), 1);
    assert_eq!(i_mod(7, -2), -1);
}

#[test]
fn a_shift_is_the_opposite_shift_the_other_way() {
    let values = [0i64, 1, -1, 0xFF, -0xFF, i64::MAX, i64::MIN, 0x1234_5678_9abc_def0];
    let counts = [0i64, 1, 2, 7, 8, 31, 32, 33, 62, 63, 64, 65, 100, i64::MAX];
    for a in values {
        for n in counts {
            assert_eq!(shift_left(a, n), shift_right(a, -n), "{} {}", a, n);
            assert_eq!(shift_right(a, n), shift_left(a, -n), "{} {}", a, n);
            if n >= 64 {
                assert_eq!(shift_left(a, n), 0);
                assert_eq!(shift_right(a, n), 0);
                assert_eq!(shift_left(a, -n), 0);
            }
        }
        assert_eq!(shift_left(a, i64::MIN), 0);
        assert_eq!(shift_right(a, i64::MIN), 0);
    }
    assert_eq!(shift_right(-16, 2), -4);
    assert_eq!(shift_left(1, 63), i64::MIN);
    assert_eq!(shift_left(3, 63), i64::MIN);
}
