use volume_viewer::fixed::{clamp, floor_div, isqrt, wide_mul, HALF, MAX_COORD, ONE};

#[test]
fn unit_is_a_multiple_of_the_sample_ranges() {
    assert_eq!(ONE % 255, 0);
    assert_eq!(ONE % 65535, 0);
    assert_eq!(ONE % 1000, 0);
    assert_eq!(HALF * 2, ONE);
    assert_eq!(MAX_COORD, 1i64 << 56);
}

#[test]
fn floor_div_rounds_towards_minus_infinity() {
    assert_eq!(floor_div(7, 2), 3);
    assert_eq!(floor_div(-7, 2), -4);
    assert_eq!(floor_div(7, -2), -4);
    assert_eq!(floor_div(-7, -2), 3);
    assert_eq!(floor_div(-8, 2), -4);
    assert_eq!(floor_div(8, -2), -4);
    assert_eq!(floor_div(0, 5), 0);
    assert_eq!(floor_div(-1, 65_535_000), -1);
    assert_eq!(floor_div(1, 65_535_000), 0);
}

#[test]
fn floor_div_agrees_with_floating_floor() {
    let numerators: [i128; 7] = [-1000, -999, -1, 0, 1, 999, 1000];
    let divisors: [i128; 6] = [-7, -3, -1, 1, 3, 7];
    for n in numerators {
        for d in divisors {
            let expected = (n as f64 / d as f64).floor() as i128;
            assert_eq!(floor_div(n, d), expected);
        }
    }
}

#[test]
fn isqrt_is_the_largest_root_below() {
    assert_eq!(isqrt(0), 0);
    assert_eq!(isqrt(1), 1);
    assert_eq!(isqrt(2), 1);
    assert_eq!(isqrt(15), 3);
    assert_eq!(isqrt(16), 4);
    assert_eq!(isqrt(17), 4);
    assert_eq!(isqrt(1u128 << 84), 1u128 << 42);
    assert_eq!(isqrt((1u128 << 84) - 1), (1u128 << 42) - 1);
    assert_eq!(isqrt(u128::MAX), (1u128 << 64) - 1);
}

#[test]
fn isqrt_brackets_every_small_number() {
    let mut n: u128 = 0;
    while n < 5000 {
        let r = isqrt(n);
        assert!(r * r <= n);
        assert!((r + 1) * (r + 1) > n);
        n += 1;
    }
}

#[test]
fn clamp_limits_to_the_range() {
    assert_eq!(clamp(5, 0, 10), 5);
    assert_eq!(clamp(-5, 0, 10), 0);
    assert_eq!(clamp(15, 0, 10), 10);
    assert_eq!(clamp(0, 0, 0), 0);
    assert_eq!(clamp(i64::MIN, -ONE, ONE), -ONE);
    assert_eq!(clamp(i64::MAX, -ONE, ONE), ONE);
}

#[test]
fn wide_mul_is_exact_at_the_extremes() {
    assert_eq!(wide_mul(i64::MIN, i64::MIN), 1i128 << 126);
    assert_eq!(wide_mul(i64::MAX, i64::MIN), -((1i128 << 126) - (1i128 << 63)));
    assert_eq!(wide_mul(ONE, ONE), 4_294_836_225_000_000);
    assert_eq!(wide_mul(-3, 4), -12);
}
