use seva::models::value::{NAN_BITS, SIGN_BIT};
use seva::models::{Value, Variable};

fn value(x: f64) -> Value {
    Value { bits: x.to_bits() }
}

#[test]
fn whole_numbers_have_the_bits_of_their_doubles() {
    for n in 0..=5000u32 {
        assert_eq!(Value::from_count(n), value(n as f64), "{}", n);
    }
    for n in [65535u32, 65536, 1 << 20, (1 << 31) - 1, 1 << 31, u32::MAX - 1, u32::MAX] {
        assert_eq!(Value::from_count(n), value(n as f64), "{}", n);
    }
    assert_eq!(Value::from_count(1).bits, 0x3ff0_0000_0000_0000);
    assert_eq!(Value::from_count(2).bits, 0x4000_0000_0000_0000);
    assert_eq!(Value::from_count(3).bits, 0x4008_0000_0000_0000);
    assert_eq!(Value::from_count(170).bits, 0x4065_4000_0000_0000);
}

#[test]
fn a_double_is_counted_when_it_is_whole() {
    for n in 0..=300u32 {
        assert_eq!(value(n as f64).as_count(300), Some(n));
    }
    assert_eq!(value(170.0).as_count(170), Some(170));
    assert_eq!(value(171.0).as_count(170), None);
    assert_eq!(value(-0.0).as_count(170), Some(0));
    assert_eq!(value(0.0).as_count(0), Some(0));
    assert_eq!(value(1.0).as_count(0), None);
    for x in [0.5, 1.5, -1.0, -170.0, 169.99999999999997, f64::INFINITY, f64::NAN, 1e300, 5e-324] {
        assert_eq!(value(x).as_count(170), None, "{}", x);
    }
}

#[test]
fn negation_changes_the_sign_bit() {
    for x in [0.0, -0.0, 1.0, -2.5, f64::INFINITY, f64::NEG_INFINITY, 1e-310, f64::MAX] {
        assert_eq!(value(x).negated(), value(-x));
    }
    assert!(f64::from_bits(value(f64::NAN).negated().bits).is_nan());
    assert_eq!(value(1.0).negated().bits, 0x3ff0_0000_0000_0000 | SIGN_BIT);
    assert_eq!(value(3.0).negated().negated(), value(3.0));
}

#[test]
fn not_a_number() {
    assert_eq!(Value::nan().bits, NAN_BITS);
    assert!(f64::from_bits(Value::nan().bits).is_nan());
}

#[test]
fn a_variable_holds_its_number() {
    let external = Variable::External(value(2.5));
    let internal = Variable::Internal(value(-1.0));
    assert_eq!(external.get(), value(2.5));
    assert_eq!(internal.get(), value(-1.0));
    assert!(external.is_external());
    assert!(!internal.is_external());
}
