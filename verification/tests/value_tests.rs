use hp41c::math::{execute_math_function, factorial, MathEval};
use hp41c::error::StackError;
use hp41c::value::{add_val, div_val, mul_val, sub_val, Value};

fn v(n: u64) -> Value {
    Value::from_int(n)
}

fn dec(neg: bool, m: u64, exp10: i64) -> Value {
    Value::from_parts(neg, m, exp10).unwrap()
}

#[test]
fn test_exact_addition() {
    assert_eq!(add_val(&v(1), &v(2)), Some(v(3)));
    // Decimal arithmetic keeps one tenth exact.
    let tenth = dec(false, 1, -1);
    let fifth = dec(false, 2, -1);
    assert_eq!(add_val(&tenth, &fifth), Some(dec(false, 3, -1)));
}

#[test]
fn test_exact_subtraction() {
    assert_eq!(sub_val(&v(5), &v(3)), Some(v(2)));
    assert_eq!(sub_val(&v(3), &v(5)), Some(v(2).negate()));
    assert_eq!(sub_val(&v(4), &v(4)), Some(v(0)));
}

#[test]
fn test_exact_multiplication() {
    assert_eq!(mul_val(&v(12), &v(12)), Some(v(144)));
    assert_eq!(mul_val(&dec(true, 25, -2), &v(4)), Some(v(1).negate()));
}

#[test]
fn test_division_rounding() {
    assert_eq!(div_val(&v(6), &v(3)), Some(v(2)));
    // 1/3 rounds to fifteen significant digits.
    assert_eq!(div_val(&v(1), &v(3)), Some(dec(false, 333333333333333, -15)));
    assert_eq!(div_val(&v(2), &v(3)), Some(dec(false, 666666666666667, -15)));
}

#[test]
fn test_multiplication_overflow() {
    let big = dec(false, 9, 307);
    assert_eq!(mul_val(&big, &big), None);
}

#[test]
fn test_underflow_flushes_to_zero() {
    let tiny = dec(false, 1, -300);
    let r = mul_val(&tiny, &tiny).unwrap();
    assert!(r.is_zero());
}

#[test]
fn test_factorial_values() {
    assert_eq!(factorial(v(0)).unwrap(), v(1));
    assert_eq!(factorial(v(5)).unwrap(), v(120));
    assert_eq!(factorial(v(10)).unwrap(), v(3628800));
    assert!(factorial(v(1).negate()).is_err());
    assert!(factorial(v(171)).is_err());
    assert!(factorial(dec(false, 55, -1)).is_err()); // Non-integer
}

#[test]
fn test_invert() {
    match execute_math_function("inv", v(2)) {
        Ok(MathEval::Done(r)) => assert_eq!(r, dec(false, 5, -1)),
        other => panic!("expected a computed reciprocal, got {other:?}"),
    }
    match execute_math_function("inv", dec(true, 4, 0)) {
        Ok(MathEval::Done(r)) => assert_eq!(r, dec(true, 25, -2)),
        other => panic!("expected a computed reciprocal, got {other:?}"),
    }
    assert!(matches!(
        execute_math_function("inv", v(0)),
        Err(StackError::DivisionByZero)
    ));
}

#[test]
fn test_math_domain_validation() {
    // asin/acos reject arguments outside [-1, 1].
    assert!(execute_math_function("asin", v(2)).is_err());
    assert!(execute_math_function("acos", v(2).negate()).is_err());
    assert!(execute_math_function("asin", v(1)).is_ok());
    // Logarithms need a positive argument.
    assert!(execute_math_function("log", v(1).negate()).is_err());
    assert!(execute_math_function("ln", v(0)).is_err());
    assert!(execute_math_function("log", v(100)).is_ok());
    // Square roots reject negatives.
    assert!(execute_math_function("sqrt", v(1).negate()).is_err());
    assert!(execute_math_function("sqrt", v(4)).is_ok());
    // Unknown names are rejected.
    assert!(execute_math_function("sinh", v(1)).is_err());
}

#[test]
fn test_value_normalization() {
    let x = v(42);
    assert_eq!(x.mant, 420_000_000_000_000);
    assert_eq!(x.exp, 1);
    assert!(!x.neg);
    let z = v(0);
    assert_eq!(z.mant, 0);
    assert_eq!(z.exp, 0);
    assert!(z.is_zero());
}

#[test]
fn test_from_parts_rounds_to_fifteen_digits() {
    // A sixteen-digit mantissa is rounded half-up.
    let x = Value::from_parts(false, 1234567890123456, 0).unwrap();
    assert_eq!(x.mant, 123456789012346);
    let y = Value::from_parts(false, 1234567890123454, 0).unwrap();
    assert_eq!(y.mant, 123456789012345);
}

#[test]
fn test_from_parts_overflow() {
    assert!(Value::from_parts(false, 1, 308).is_none());
    assert!(Value::from_parts(false, 1, 307).is_some());
}
