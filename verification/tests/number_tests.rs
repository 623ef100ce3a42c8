use filereduce::number::{equal, less, less_or_equal, maximum, minimum, nan};

fn samples() -> Vec<f64> {
    vec![
        0.0,
        -0.0,
        1.0,
        -1.0,
        0.999,
        10.001,
        f64::MIN_POSITIVE,
        -f64::MIN_POSITIVE,
        5e-324,
        -5e-324,
        f64::MAX,
        f64::MIN,
        f64::INFINITY,
        f64::NEG_INFINITY,
        f64::NAN,
        -f64::NAN,
        f64::from_bits(0x7ff0_0000_0000_0001),
        f64::from_bits(0xffff_ffff_ffff_ffff),
        1e300,
        -1e300,
        3.5,
        -3.5,
    ]
}

#[test]
fn comparisons_are_those_of_the_numbers() {
    for a in samples() {
        assert_eq!(nan(a.to_bits()), a.is_nan(), "nan {:?}", a);
        for b in samples() {
            let (x, y) = (a.to_bits(), b.to_bits());
            assert_eq!(equal(x, y), a == b, "{:?} == {:?}", a, b);
            assert_eq!(less(x, y), a < b, "{:?} < {:?}", a, b);
            assert_eq!(less_or_equal(x, y), a <= b, "{:?} <= {:?}", a, b);
        }
    }
}

#[test]
fn least_and_greatest_are_those_of_the_numbers() {
    for a in samples() {
        for b in samples() {
            let lo = f64::from_bits(minimum(a.to_bits(), b.to_bits()));
            let hi = f64::from_bits(maximum(a.to_bits(), b.to_bits()));
            if a.is_nan() && b.is_nan() {
                assert!(lo.is_nan() && hi.is_nan());
            } else {
                assert_eq!(lo, a.min(b), "min {:?} {:?}", a, b);
                assert_eq!(hi, a.max(b), "max {:?} {:?}", a, b);
            }
        }
    }
}

#[test]
fn equal_numbers_leave_the_first() {
    let (pos, neg) = (0.0f64.to_bits(), (-0.0f64).to_bits());
    assert_eq!(minimum(pos, neg), pos);
    assert_eq!(minimum(neg, pos), neg);
    assert_eq!(maximum(pos, neg), pos);
    assert_eq!(maximum(neg, pos), neg);
}

#[test]
fn encodings_at_the_edges() {
    assert!(!nan(0x7ff0_0000_0000_0000));
    assert!(nan(0x7ff0_0000_0000_0001));
    assert!(!nan(0xfff0_0000_0000_0000));
    assert!(nan(0xfff0_0000_0000_0001));
    assert!(nan(u64::MAX));
    assert!(!nan(0));
    assert!(less(0xfff0_0000_0000_0000, 0x7ff0_0000_0000_0000));
    assert!(less(0x8000_0000_0000_0001, 0));
    assert!(!less(0x8000_0000_0000_0000, 0));
    assert!(equal(0x8000_0000_0000_0000, 0));
}
