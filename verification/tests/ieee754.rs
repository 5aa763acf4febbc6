use pydart::ieee754::{compare_f64_bits, f32_to_f64_bits, i64_to_f64_bits, Comparison};
use pydart::text::{compare_strs, str_equals};

fn cmp(a: f64, b: f64) -> Option<Comparison> {
    compare_f64_bits(a.to_bits(), b.to_bits())
}

#[test]
fn binary64_comparison_orders_values() {
    assert_eq!(cmp(1.0, 2.0), Some(Comparison::Less));
    assert_eq!(cmp(2.0, 1.0), Some(Comparison::Greater));
    assert_eq!(cmp(-1.5, -1.5), Some(Comparison::Equal));
    assert_eq!(cmp(-2.0, 1.0), Some(Comparison::Less));
    assert_eq!(cmp(-2.0, -3.0), Some(Comparison::Greater));
    assert_eq!(cmp(f64::MIN_POSITIVE / 4.0, 0.0), Some(Comparison::Greater));
    assert_eq!(cmp(f64::INFINITY, f64::MAX), Some(Comparison::Greater));
    assert_eq!(cmp(f64::NEG_INFINITY, -1e300), Some(Comparison::Less));
}

#[test]
fn binary64_zeros_are_equal_and_nan_is_incomparable() {
    assert_eq!(cmp(-0.0, 0.0), Some(Comparison::Equal));
    assert_eq!(cmp(f64::NAN, 1.0), None);
    assert_eq!(cmp(1.0, f64::NAN), None);
    assert_eq!(cmp(f64::NAN, f64::NAN), None);
}

#[test]
fn binary64_comparison_agrees_with_partial_cmp() {
    let values = [
        0.0, -0.0, 1.0, -1.0, 0.5, 99.5, 1e-310, -1e-310, 1e300, f64::MAX, f64::MIN,
        f64::INFINITY, f64::NEG_INFINITY, f64::NAN, 250.0, 2.5e-5,
    ];
    for a in values {
        for b in values {
            let expected = a.partial_cmp(&b).map(|o| match o {
                std::cmp::Ordering::Less => Comparison::Less,
                std::cmp::Ordering::Equal => Comparison::Equal,
                std::cmp::Ordering::Greater => Comparison::Greater,
            });
            assert_eq!(cmp(a, b), expected, "{a} vs {b}");
        }
    }
}

#[test]
fn integer_widening_matches_as_f64() {
    let values: [i64; 14] = [
        0,
        1,
        -1,
        250,
        -99,
        (1 << 53) - 1,
        1 << 53,
        (1 << 53) + 1,
        (1 << 53) + 3,
        -((1 << 53) + 1),
        i64::MAX,
        i64::MIN,
        i64::MAX - 511,
        1_234_567_890_123_456_789,
    ];
    for x in values {
        assert_eq!(i64_to_f64_bits(x), (x as f64).to_bits(), "{x}");
    }
}

#[test]
fn binary32_widening_matches_as_f64() {
    let values: [f32; 9] = [0.0, -0.0, 1.0, -2.5, 1e-40, -1e-45, f32::MAX, f32::INFINITY, f32::NEG_INFINITY];
    for v in values {
        assert_eq!(f32_to_f64_bits(v.to_bits()), (v as f64).to_bits(), "{v}");
    }
    assert!(f64::from_bits(f32_to_f64_bits(f32::NAN.to_bits())).is_nan());
}

#[test]
fn strings_compare_bytewise() {
    assert_eq!(compare_strs("apple", "banana"), Comparison::Less);
    assert_eq!(compare_strs("b", "apple"), Comparison::Greater);
    assert_eq!(compare_strs("app", "apple"), Comparison::Less);
    assert_eq!(compare_strs("é", "z"), Comparison::Greater);
    assert_eq!(compare_strs("same", "same"), Comparison::Equal);
    assert!(str_equals("ns", "ns"));
    assert!(!str_equals("ns", "us"));
}
