use loose_cannon::vector::{
    integer_sqrt, integer_sqrt_wide, Vec3, UNIT, UNIT_NORM_SQ_MAX, UNIT_NORM_SQ_MIN, WIDE_LIMIT,
    WORLD_LIMIT,
};

#[test]
fn integer_sqrt_of_small_numbers() {
    assert_eq!(integer_sqrt(0), 0);
    assert_eq!(integer_sqrt(1), 1);
    assert_eq!(integer_sqrt(3), 1);
    assert_eq!(integer_sqrt(15), 3);
    assert_eq!(integer_sqrt(16), 4);
    assert_eq!(integer_sqrt(17), 4);
}

#[test]
fn integer_sqrt_of_large_numbers() {
    assert_eq!(integer_sqrt(u64::MAX), 4_294_967_295);
    assert_eq!(integer_sqrt(4_294_967_295 * 4_294_967_295), 4_294_967_295);
    assert_eq!(integer_sqrt(4_294_967_295 * 4_294_967_295 - 1), 4_294_967_294);
    assert_eq!(integer_sqrt(26_000_000), 5_099);
}

#[test]
fn integer_sqrt_brackets_its_argument() {
    let mut n: u64 = 0;
    while n < 5_000 {
        let r = integer_sqrt(n);
        assert!(r * r <= n);
        assert!((r + 1) * (r + 1) > n);
        n += 1;
    }
}

#[test]
fn normalized_gives_a_unit_vector() {
    assert_eq!(Vec3::new(3_000, 4_000, 0).normalized(), Some(Vec3::new(600, 800, 0)));
    assert_eq!(Vec3::new(-3_000, 0, 4_000).normalized(), Some(Vec3::new(-600, 0, 800)));
    assert_eq!(Vec3::new(0, 0, 21_000).normalized(), Some(Vec3::new(0, 0, UNIT)));
}

#[test]
fn normalized_rounds_toward_zero() {
    assert_eq!(Vec3::new(7, -2, 3).normalized(), Some(Vec3::new(889, -254, 381)));
    assert_eq!(Vec3::new(1, 1, 1).normalized(), Some(Vec3::new(577, 577, 577)));
    assert_eq!(Vec3::new(1, 0, 0).normalized(), Some(Vec3::new(1_000, 0, 0)));
    assert_eq!(Vec3::new(-2, 1, 0).normalized(), Some(Vec3::new(-894, 447, 0)));
}

#[test]
fn unit_vectors_are_one_unit_long() {
    let vectors = [
        Vec3::new(1, 0, 0),
        Vec3::new(1, 1, 1),
        Vec3::new(-1, 2, -3),
        Vec3::new(7, 7, 0),
        Vec3::new(-64, 64, -7),
        Vec3::new(999, -1, 1),
        Vec3::new(123_456, -7, 89),
        Vec3::new(-21_000, 20_999, 1),
        Vec3::new(WIDE_LIMIT, WIDE_LIMIT - 1, -WIDE_LIMIT),
        Vec3::new(0, -WIDE_LIMIT, 1),
    ];
    for v in vectors {
        let u = v.normalized().unwrap();
        let n = u.norm_sq();
        assert!(n >= UNIT_NORM_SQ_MIN as u64 && n <= UNIT_NORM_SQ_MAX as u64);
        assert!(u.x.abs() <= UNIT && u.y.abs() <= UNIT && u.z.abs() <= UNIT);
        assert!(u.length() >= 996 && u.length() <= 1_000);
    }
    assert_eq!((UNIT_NORM_SQ_MIN, UNIT_NORM_SQ_MAX), (993_997, 1_002_000));
}

#[test]
fn integer_sqrt_of_wide_numbers() {
    assert_eq!(integer_sqrt_wide(0), 0);
    assert_eq!(integer_sqrt_wide(62_000_000), 7_874);
    assert_eq!(integer_sqrt_wide(26_000_000_000_000), 5_099_019);
    assert_eq!(integer_sqrt_wide(u128::MAX), u64::MAX);
    assert_eq!(integer_sqrt_wide(1 << 82), 1 << 41);
    assert_eq!(integer_sqrt_wide((1 << 82) - 1), (1 << 41) - 1);
}

#[test]
fn normalized_of_zero_is_none() {
    assert_eq!(Vec3::new(0, 0, 0).normalized(), None);
}

#[test]
fn normalized_at_the_limit_of_the_range() {
    let v = Vec3::new(WIDE_LIMIT, -WIDE_LIMIT, WIDE_LIMIT);
    let u = v.normalized().unwrap();
    assert_eq!(u, Vec3::new(577, -577, 577));
}

#[test]
fn cross_follows_the_right_hand() {
    let x = Vec3::new(1, 0, 0);
    let y = Vec3::new(0, 1, 0);
    let z = Vec3::new(0, 0, 1);
    assert_eq!(x.cross(&y), z);
    assert_eq!(y.cross(&z), x);
    assert_eq!(z.cross(&x), y);
    assert_eq!(y.cross(&x), Vec3::new(0, 0, -1));
}

#[test]
fn cross_is_at_right_angles_to_both() {
    let a = Vec3::new(120, -7_000, 33);
    let b = Vec3::new(-4, 900, 8_100);
    let c = a.cross(&b);
    assert_eq!(c, Vec3::new(-56_729_700, -972_132, 80_000));
    assert_eq!(c.dot(&a), 0);
    assert_eq!(c.dot(&b), 0);
}

#[test]
fn dot_and_length() {
    let a = Vec3::new(3_000, -4_000, 12_000);
    assert_eq!(a.dot(&a), 169_000_000);
    assert_eq!(a.norm_sq(), 169_000_000);
    assert_eq!(a.length(), 13_000);
    assert_eq!(Vec3::new(1, 1, 1).length(), 1);
    assert_eq!(Vec3::new(0, 0, 0).length(), 0);
}

#[test]
fn plus_minus_negated_scaled() {
    let a = Vec3::new(1, -2, 3);
    let b = Vec3::new(10, 20, -30);
    assert_eq!(a.plus(&b), Vec3::new(11, 18, -27));
    assert_eq!(a.minus(&b), Vec3::new(-9, -22, 33));
    assert_eq!(a.negated(), Vec3::new(-1, 2, -3));
    assert_eq!(a.scaled(-4), Vec3::new(-4, 8, -12));
}

#[test]
fn times_is_fixed_point_and_rounds_toward_zero() {
    assert_eq!(Vec3::new(1_000, -1_500, 7).times(900), Vec3::new(900, -1_350, 6));
    assert_eq!(Vec3::new(-7, 0, 0).times(900), Vec3::new(-6, 0, 0));
    assert_eq!(Vec3::new(0, 1_000, 0).times(3_000), Vec3::new(0, 3_000, 0));
    assert_eq!(Vec3::new(5, 5, 5).times(UNIT), Vec3::new(5, 5, 5));
}

#[test]
fn world_and_range_limits() {
    assert_eq!(WORLD_LIMIT * 4, WIDE_LIMIT);
    assert!(Vec3::new(WORLD_LIMIT, -WORLD_LIMIT, 0).is_in_world());
    assert!(!Vec3::new(WORLD_LIMIT + 1, 0, 0).is_in_world());
    assert!(!Vec3::new(0, 0, -WORLD_LIMIT - 1).is_in_world());
    assert!(Vec3::new(WIDE_LIMIT, 0, -WIDE_LIMIT).is_in_range());
    assert!(!Vec3::new(0, WIDE_LIMIT + 1, 0).is_in_range());
    assert!(Vec3::new(0, 0, 0).is_zero());
    assert!(!Vec3::new(0, 0, 1).is_zero());
}
