use haxby_dispatch::float_repr::{float_eq_bits, float_int_eq_bits};

#[test]
fn float_equality_follows_ieee() {
    let b = |x: f64| x.to_bits();
    assert!(float_eq_bits(b(1.5), b(1.5)));
    assert!(!float_eq_bits(b(1.5), b(2.5)));
    assert!(float_eq_bits(b(0.0), b(-0.0)));
    assert!(!float_eq_bits(b(f64::NAN), b(f64::NAN)));
    assert!(float_eq_bits(b(f64::INFINITY), b(f64::INFINITY)));
    assert!(!float_eq_bits(b(f64::INFINITY), b(f64::NEG_INFINITY)));
}

#[test]
fn float_integer_equality_is_exact() {
    let b = |x: f64| x.to_bits();
    assert!(float_int_eq_bits(b(3.0), 3));
    assert!(float_int_eq_bits(b(-3.0), -3));
    assert!(!float_int_eq_bits(b(3.5), 3));
    assert!(!float_int_eq_bits(b(3.0), -3));
    assert!(float_int_eq_bits(b(0.0), 0));
    assert!(float_int_eq_bits(b(-0.0), 0));
    assert!(!float_int_eq_bits(b(f64::NAN), 0));
    assert!(!float_int_eq_bits(b(f64::INFINITY), i64::MAX));

    // a subnormal is tiny but nonzero
    assert!(!float_int_eq_bits(1u64, 0));
    assert!(!float_int_eq_bits(1u64, 1));

    // beyond 2^53 the doubles thin out: the rounded neighbor of an odd
    // integer is not numerically equal to it
    let big = 1i64 << 60;
    assert!(float_int_eq_bits(b(big as f64), big));
    assert!(!float_int_eq_bits(b(big as f64), big + 1));

    // 2^63 overflows i64 as an integer but matches i64::MIN in
    // magnitude on the negative side
    assert!(float_int_eq_bits(b(i64::MIN as f64), i64::MIN));
    assert!(!float_int_eq_bits(b(9.223372036854776e18), i64::MAX));

    // large float far outside the i64 range
    assert!(!float_int_eq_bits(b(1.0e30), i64::MAX));
}

#[test]
fn float_integer_equality_matches_native_casts() {
    // spot-check agreement with the host's own arithmetic on exactly
    // representable values
    for i in [-1_000_000i64, -7, -1, 0, 1, 2, 9, 4096, 1_000_000_007] {
        let f = i as f64;
        assert!(float_int_eq_bits(f.to_bits(), i));
        assert!(!float_int_eq_bits(f.to_bits(), i + 1));
    }
}
