use hp41c::display::{DisplayFormatter, DisplayMode};
use hp41c::value::Value;

fn v(n: u64) -> Value {
    Value::from_int(n)
}

fn dec(neg: bool, m: u64, exp10: i64) -> Value {
    Value::from_parts(neg, m, exp10).unwrap()
}

#[test]
fn test_fix_zero() {
    let f = DisplayFormatter::new();
    assert_eq!(f.format_number(v(0), 35), "0.0000");
    let f0 = DisplayFormatter { mode: DisplayMode::Fix, digits: 0 };
    assert_eq!(f0.format_number(v(0), 35), "0");
}

#[test]
fn test_sci_eng_zero() {
    let f = DisplayFormatter { mode: DisplayMode::Sci, digits: 2 };
    assert_eq!(f.format_number(v(0), 35), "0.00E+00");
    let f = DisplayFormatter { mode: DisplayMode::Eng, digits: 1 };
    assert_eq!(f.format_number(v(0), 35), "0.0E+00");
}

#[test]
fn test_fix_formatting() {
    let f = DisplayFormatter::new();
    assert_eq!(f.format_number(v(8), 35), "8.0000");
    assert_eq!(f.format_number(v(1234), 35), "1234.0000");
    assert_eq!(f.format_number(dec(false, 12345, -2), 35), "123.4500");
    assert_eq!(f.format_number(dec(true, 5, -1), 35), "-0.5000");
    // Rounding half-up at the last shown place.
    let f2 = DisplayFormatter { mode: DisplayMode::Fix, digits: 1 };
    assert_eq!(f2.format_number(dec(false, 996, -2), 35), "10.0");
    assert_eq!(f2.format_number(dec(false, 94, -2), 35), "0.9");
}

#[test]
fn test_sci_formatting() {
    let f = DisplayFormatter { mode: DisplayMode::Sci, digits: 3 };
    assert_eq!(f.format_number(v(8), 35), "8.000e0");
    assert_eq!(f.format_number(v(150), 35), "1.500e2");
    assert_eq!(f.format_number(dec(true, 25, -3), 35), "-2.500e-2");
}

#[test]
fn test_eng_formatting() {
    let f = DisplayFormatter { mode: DisplayMode::Eng, digits: 2 };
    assert_eq!(f.format_number(v(150), 35), "150.00E+00");
    assert_eq!(f.format_number(v(1500), 35), "1.50E+03");
    assert_eq!(f.format_number(dec(false, 5, -2), 35), "50.00E-03");
}

#[test]
fn test_width_truncation() {
    let f = DisplayFormatter { mode: DisplayMode::Fix, digits: 9 };
    let s = f.format_number(dec(false, 1, 300), 35);
    assert_eq!(s.len(), 35);
}

#[test]
fn test_mode_string() {
    let f = DisplayFormatter::new();
    assert_eq!(f.get_mode_string(), "FIX 4");
    let f = DisplayFormatter { mode: DisplayMode::Sci, digits: 7 };
    assert_eq!(f.get_mode_string(), "SCI 7");
    let f = DisplayFormatter { mode: DisplayMode::Eng, digits: 0 };
    assert_eq!(f.get_mode_string(), "ENG 0");
}
