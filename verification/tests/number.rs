use titanpl::number::{classify_double, DoubleClass, JsNumber};
use titanpl::text::{
    bytes_of, chars_of, decimal_text, joined, same_text, signed_decimal_text, text_of,
    text_of_range,
};

fn class_of(value: f64) -> DoubleClass {
    classify_double(value.to_bits())
}

#[test]
fn whole_numbers_are_integers() {
    assert_eq!(class_of(0.0), DoubleClass::Integer(0));
    assert_eq!(class_of(-0.0), DoubleClass::Integer(0));
    assert_eq!(class_of(1.0), DoubleClass::Integer(1));
    assert_eq!(class_of(-1.0), DoubleClass::Integer(-1));
    assert_eq!(class_of(255.0), DoubleClass::Integer(255));
    assert_eq!(class_of(9007199254740992.0), DoubleClass::Integer(9007199254740992));
    assert_eq!(class_of(-4611686018427387904.0), DoubleClass::Integer(-4611686018427387904));
    assert_eq!(class_of(4503599627370497.0), DoubleClass::Integer(4503599627370497));
}

#[test]
fn a_whole_number_beyond_the_integer_range_stays_a_double() {
    assert_eq!(class_of(9223372036854775808.0), DoubleClass::Fractional);
    assert_eq!(class_of(-9223372036854775808.0), DoubleClass::Integer(i64::MIN));
    assert_eq!(class_of(9223372036854774784.0), DoubleClass::Integer(9223372036854774784));
    assert_eq!(class_of(9223372036854777856.0), DoubleClass::Fractional);
    assert_eq!(class_of(-9223372036854777856.0), DoubleClass::Fractional);
    assert_eq!(class_of(1e21), DoubleClass::Fractional);
    assert_eq!(class_of(f64::MAX), DoubleClass::Fractional);
}

#[test]
fn numbers_with_a_fraction_are_fractional() {
    assert_eq!(class_of(0.5), DoubleClass::Fractional);
    assert_eq!(class_of(-1.25), DoubleClass::Fractional);
    assert_eq!(class_of(4503599627370495.5), DoubleClass::Fractional);
    assert_eq!(class_of(f64::MIN_POSITIVE), DoubleClass::Fractional);
    assert_eq!(class_of(5e-324), DoubleClass::Fractional);
    assert_eq!(class_of(1e-300), DoubleClass::Fractional);
}

#[test]
fn what_is_not_finite_is_no_number() {
    assert_eq!(class_of(f64::NAN), DoubleClass::NotFinite);
    assert_eq!(class_of(f64::INFINITY), DoubleClass::NotFinite);
    assert_eq!(class_of(f64::NEG_INFINITY), DoubleClass::NotFinite);
    assert!(JsNumber::from_double(f64::NAN.to_bits(), "NaN".to_string()).is_none());
}

#[test]
fn classification_agrees_with_the_double_on_many_values() {
    let mut bits: u64 = 0x9e37_79b9_7f4a_7c15;
    for _ in 0..20000 {
        bits = bits.wrapping_mul(6364136223846793005).wrapping_add(1442695040888963407);
        let value = f64::from_bits(bits);
        let expected = if value.is_nan() || value.is_infinite() {
            DoubleClass::NotFinite
        } else if value.fract() == 0.0 && value >= i64::MIN as f64 && value < i64::MAX as f64 {
            DoubleClass::Integer(value as i64)
        } else {
            DoubleClass::Fractional
        };
        assert_eq!(classify_double(bits), expected, "bits {bits:#x}");
        let small = f64::from_bits((bits % (1 << 62)) | 0x3ff0_0000_0000_0000 & !(1 << 63));
        let expected = if small.fract() == 0.0 && small >= i64::MIN as f64 && small < i64::MAX as f64 {
            DoubleClass::Integer(small as i64)
        } else if small.is_finite() {
            DoubleClass::Fractional
        } else {
            DoubleClass::NotFinite
        };
        assert_eq!(classify_double(small.to_bits()), expected, "value {small}");
    }
}

#[test]
fn a_number_is_made_of_bits_and_text() {
    match JsNumber::from_double(2.0f64.to_bits(), "2.0".to_string()).unwrap() {
        JsNumber::Int(n) => assert_eq!(n, 2),
        other => panic!("not an integer: {other:?}"),
    }
    match JsNumber::from_double(2.5f64.to_bits(), "2.5".to_string()).unwrap() {
        JsNumber::Real { bits, text } => {
            assert_eq!(bits, 2.5f64.to_bits());
            assert_eq!(text, "2.5");
        }
        other => panic!("not a real: {other:?}"),
    }
}

#[test]
fn negation_reverses_the_sign() {
    match JsNumber::Int(5).negated().unwrap() {
        JsNumber::Int(n) => assert_eq!(n, -5),
        other => panic!("{other:?}"),
    }
    match JsNumber::Int(0).negated().unwrap() {
        JsNumber::Int(n) => assert_eq!(n, 0),
        other => panic!("{other:?}"),
    }
    assert!(JsNumber::Int(9007199254740993).negated().is_none());
    assert!(JsNumber::Int(i64::MIN).negated().is_none());
    assert!(JsNumber::Int(-9007199254740992).negated().is_some());
    let real = JsNumber::Real { bits: 2.5f64.to_bits(), text: "2.5".to_string() };
    match real.negated().unwrap() {
        JsNumber::Real { bits, text } => {
            assert_eq!(bits, (-2.5f64).to_bits());
            assert_eq!(text, "-2.5");
        }
        other => panic!("{other:?}"),
    }
    let negative = JsNumber::Real { bits: (-1e-7f64).to_bits(), text: "-1e-7".to_string() };
    match negative.negated().unwrap() {
        JsNumber::Real { bits, text } => {
            assert_eq!(bits, 1e-7f64.to_bits());
            assert_eq!(text, "1e-7");
        }
        other => panic!("{other:?}"),
    }
}

#[test]
fn sums_are_exact_or_unknown() {
    let sum = |a: i64, b: i64| match JsNumber::Int(a).plus(&JsNumber::Int(b)) {
        Some(JsNumber::Int(n)) => Some(n),
        Some(other) => panic!("{other:?}"),
        None => None,
    };
    assert_eq!(sum(2, 3), Some(5));
    assert_eq!(sum(-7, 3), Some(-4));
    assert_eq!(sum(9007199254740991, 1), Some(9007199254740992));
    assert_eq!(sum(9007199254740992, 1), None);
    assert_eq!(sum(9007199254740993, 0), None);
    assert_eq!(sum(-9007199254740992, -1), None);
    let real = JsNumber::Real { bits: 0.5f64.to_bits(), text: "0.5".to_string() };
    assert!(real.plus(&JsNumber::Int(1)).is_none());
    assert!(JsNumber::Int(1).plus(&real).is_none());
}

#[test]
fn only_a_non_negative_integer_is_unsigned() {
    assert_eq!(JsNumber::Int(201).as_unsigned(), Some(201));
    assert_eq!(JsNumber::Int(0).as_unsigned(), Some(0));
    assert_eq!(JsNumber::Int(-1).as_unsigned(), None);
    let real = JsNumber::Real { bits: 200.5f64.to_bits(), text: "200.5".to_string() };
    assert_eq!(real.as_unsigned(), None);
    assert_eq!(real.text(), "200.5");
    assert_eq!(JsNumber::Int(-12).text(), "-12");
    assert_eq!(real.duplicate().text(), "200.5");
}

#[test]
fn integers_are_written_in_decimal() {
    assert_eq!(decimal_text(0), "0");
    assert_eq!(decimal_text(7), "7");
    assert_eq!(decimal_text(10), "10");
    assert_eq!(decimal_text(1234567890), "1234567890");
    assert_eq!(decimal_text(u64::MAX), "18446744073709551615");
    assert_eq!(signed_decimal_text(0), "0");
    assert_eq!(signed_decimal_text(-1), "-1");
    assert_eq!(signed_decimal_text(i64::MAX), "9223372036854775807");
    assert_eq!(signed_decimal_text(i64::MIN), "-9223372036854775808");
}

#[test]
fn texts_are_taken_apart_and_put_together() {
    assert!(same_text("abc", "abc"));
    assert!(!same_text("abc", "abd"));
    assert!(!same_text("abc", "ab"));
    assert_eq!(joined("ab", "cd"), "abcd");
    assert_eq!(chars_of("héllo"), vec!['h', 'é', 'l', 'l', 'o']);
    assert_eq!(text_of(&vec!['h', 'é']), "hé");
    assert_eq!(text_of_range(&vec!['a', 'b', 'c', 'd'], 1, 3), "bc");
    assert_eq!(text_of_range(&vec!['a', 'b'], 1, 1), "");
    assert_eq!(bytes_of("hé"), vec![b'h', 0xc3, 0xa9]);
}
