use hp41c::error::InputError;
use hp41c::input::InputState;
use hp41c::value::Value;

fn v(n: u64) -> Value {
    Value::from_int(n)
}

fn dec(neg: bool, m: u64, exp10: i64) -> Value {
    Value::from_parts(neg, m, exp10).unwrap()
}

#[test]
fn test_digit_entry() {
    let mut input = InputState::new();

    assert_eq!(input.handle_digit('1').unwrap(), Some(v(1)));
    assert_eq!(input.handle_digit('2').unwrap(), Some(v(12)));
    assert_eq!(input.handle_digit('3').unwrap(), Some(v(123)));
    assert_eq!(input.get_entry_string(), "123");
}

#[test]
fn test_decimal_entry() {
    let mut input = InputState::new();

    input.handle_digit('1').unwrap();
    input.handle_digit('.').unwrap();
    input.handle_digit('5').unwrap();

    assert_eq!(input.get_entry_string(), "1.5");
    assert_eq!(input.get_display_string(), "1.5_");
}

#[test]
fn test_leading_decimal() {
    let mut input = InputState::new();

    input.handle_digit('.').unwrap();
    assert_eq!(input.get_entry_string(), "0.");

    input.handle_digit('5').unwrap();
    assert_eq!(input.try_parse().unwrap(), Some(dec(false, 5, -1)));
}

#[test]
fn test_eex_mode() {
    let mut input = InputState::new();

    input.handle_digit('1').unwrap();
    input.handle_digit('.').unwrap();
    input.handle_digit('5').unwrap();

    input.enter_eex_mode().unwrap();
    assert!(input.is_eex_mode());

    input.handle_digit('2').unwrap();
    assert_eq!(input.try_parse().unwrap(), Some(v(150)));
    assert_eq!(input.get_display_string(), "1.5 E2_");
}

#[test]
fn test_backspace() {
    let mut input = InputState::new();

    input.handle_digit('1').unwrap();
    input.handle_digit('2').unwrap();
    input.handle_digit('3').unwrap();

    assert_eq!(input.handle_backspace(), Some(v(12)));
    assert_eq!(input.get_entry_string(), "12");

    assert_eq!(input.handle_backspace(), Some(v(1)));
    assert_eq!(input.handle_backspace(), Some(v(0)));
    assert!(!input.is_entering());
}

#[test]
fn test_overflow_protection() {
    let mut input = InputState::new();

    // Try to enter too many digits
    for _ in 0..15 {
        input.handle_digit('9').unwrap();
    }

    // Next digit should fail
    assert!(matches!(input.handle_digit('9'), Err(InputError::Overflow)));
}

#[test]
fn test_overflow_keeps_previous_value() {
    // The overflow failure leaves the previously-valid parsed value
    // unchanged.
    let mut input = InputState::new();
    for _ in 0..15 {
        input.handle_digit('7').unwrap();
    }
    let before = input.try_parse().unwrap();
    assert!(matches!(input.handle_digit('3'), Err(InputError::Overflow)));
    assert_eq!(input.try_parse().unwrap(), before);
    assert_eq!(input.get_entry_string(), "777777777777777");
}

#[test]
fn test_second_decimal_point_ignored() {
    let mut input = InputState::new();
    input.handle_digit('1').unwrap();
    input.handle_digit('.').unwrap();
    assert_eq!(input.handle_digit('.').unwrap(), None);
    assert_eq!(input.get_entry_string(), "1.");
}

#[test]
fn test_lone_zero_is_replaced() {
    let mut input = InputState::new();
    input.handle_digit('0').unwrap();
    input.handle_digit('7').unwrap();
    assert_eq!(input.get_entry_string(), "7");
}

#[test]
fn test_eex_overflow_exponent() {
    // A three-digit exponent beyond the representable range overflows.
    let mut input = InputState::new();
    input.handle_digit('5').unwrap();
    input.enter_eex_mode().unwrap();
    input.handle_digit('9').unwrap();
    input.handle_digit('9').unwrap();
    assert!(matches!(input.handle_digit('9'), Err(InputError::Overflow)));
}

#[test]
fn test_try_parse_empty_is_invalid_number() {
    let input = InputState::new();
    match input.try_parse() {
        Err(InputError::InvalidNumber(s)) => assert_eq!(s, ""),
        other => panic!("expected invalid number, got {other:?}"),
    }
}
