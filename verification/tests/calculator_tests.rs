use hp41c::calculator::HP41CCalculator;
use hp41c::display::DisplayMode;
use hp41c::execution::MathRequest;
use hp41c::math::MathFunction;
use hp41c::value::Value;

fn v(n: u64) -> Value {
    Value::from_int(n)
}

fn value_to_f64(x: Value) -> f64 {
    let sign = if x.neg { -1.0 } else { 1.0 };
    sign * (x.mant as f64) * 10f64.powi(x.exp - 14)
}

fn f64_to_value(x: f64) -> Option<Value> {
    if !x.is_finite() {
        return None;
    }
    if x == 0.0 {
        return Some(Value::from_int(0));
    }
    let neg = x < 0.0;
    let s = format!("{:e}", x.abs());
    let (mant_s, exp_s) = s.split_once('e').unwrap();
    let exp: i64 = exp_s.parse().unwrap();
    let digits: String = mant_s.chars().filter(|c| *c != '.').collect();
    let frac = mant_s.len() as i64 - 1 - mant_s.find('.').map(|p| p as i64).unwrap_or(0);
    let frac = if mant_s.contains('.') { frac } else { 0 };
    let m: u64 = digits.parse().unwrap();
    Value::from_parts(neg, m, exp - frac)
}

/// Answer a pending transcendental request with an f64 evaluation, the
/// way a host would.
fn answer_math(calc: &mut HP41CCalculator) {
    if let Some(req) = calc.pending_math() {
        let res = match req {
            MathRequest::Unary(f, x) => {
                let xv = value_to_f64(x);
                let y = match f {
                    MathFunction::Sin => xv.sin(),
                    MathFunction::Cos => xv.cos(),
                    MathFunction::Tan => xv.tan(),
                    MathFunction::Asin => xv.asin(),
                    MathFunction::Acos => xv.acos(),
                    MathFunction::Atan => xv.atan(),
                    MathFunction::Log => xv.log10(),
                    MathFunction::Ln => xv.ln(),
                    MathFunction::Exp => xv.exp(),
                    MathFunction::Sqrt => xv.sqrt(),
                };
                f64_to_value(y).ok_or_else(|| {
                    hp41c::error::StackError::MathError("Invalid result".to_string())
                })
            }
            MathRequest::Power(y, x) => {
                let r = value_to_f64(y).powf(value_to_f64(x));
                f64_to_value(r).ok_or_else(|| {
                    hp41c::error::StackError::MathError("Overflow".to_string())
                })
            }
        };
        calc.apply_math_result(res).ok();
    }
}

// Helper function to create a calculator and process a sequence of keystrokes
fn process_keys(keys: &[&str]) -> (HP41CCalculator, Vec<String>) {
    let mut calc = HP41CCalculator::new();
    let mut messages = Vec::new();

    for key in keys {
        match calc.process_input(key) {
            Ok(Some(msg)) => messages.push(msg),
            Ok(None) => {}
            Err(msg) => messages.push(format!("ERROR: {}", msg)),
        }
        answer_math(&mut calc);
    }

    (calc, messages)
}

#[test]
fn test_basic_arithmetic() {
    let (calc, _) = process_keys(&["5", "enter", "3", "+"]);
    assert_eq!(calc.test_get_stack()[0], v(8));

    let (calc, _) = process_keys(&["5", "enter", "3", "-"]);
    assert_eq!(calc.test_get_stack()[0], v(2));

    let (calc, _) = process_keys(&["5", "enter", "3", "*"]);
    assert_eq!(calc.test_get_stack()[0], v(15));

    let (calc, _) = process_keys(&["6", "enter", "3", "/"]);
    assert_eq!(calc.test_get_stack()[0], v(2));
}

#[test]
fn test_stack_lift_behavior() {
    let mut calc = HP41CCalculator::new();

    // Enter 1, 2, 3, 4 onto stack
    calc.process_input("1").unwrap();
    calc.process_input("enter").unwrap();
    calc.process_input("2").unwrap();
    calc.process_input("enter").unwrap();
    calc.process_input("3").unwrap();
    calc.process_input("enter").unwrap();
    calc.process_input("4").unwrap();

    let stack = calc.test_get_stack();
    // Stack should be T:1, Z:2, Y:3, X:4
    assert_eq!(stack[3], v(1), "T register should be 1");
    assert_eq!(stack[2], v(2), "Z register should be 2");
    assert_eq!(stack[1], v(3), "Y register should be 3");
    assert_eq!(stack[0], v(4), "X register should be 4");
}

#[test]
fn test_sto_rcl_keystrokes() {
    let mut calc = HP41CCalculator::new();

    // Put 42 in X, store it in register 05 with a two-digit register
    calc.process_input("4").unwrap();
    calc.process_input("2").unwrap();
    calc.process_input("s").unwrap();
    calc.process_input("t").unwrap();
    calc.process_input("o").unwrap();
    calc.process_input("0").unwrap();
    let r = calc.process_input("5").unwrap();
    assert_eq!(r, Some("STO 05".to_string()));
    assert_eq!(calc.test_get_storage(5), Some(v(42)));

    // Enter 0, then recall register 05
    calc.process_input("0").unwrap();
    assert_eq!(calc.test_get_stack()[0], v(0));
    calc.process_input("r").unwrap();
    calc.process_input("c").unwrap();
    calc.process_input("l").unwrap();
    calc.process_input("0").unwrap();
    let r = calc.process_input("5").unwrap();
    assert_eq!(r, Some("RCL 05".to_string()));
    assert_eq!(calc.test_get_stack()[0], v(42));
}

#[test]
fn test_display_mode_keystrokes() {
    let (calc, messages) = process_keys(&["f", "i", "x", "6"]);
    assert!(messages.iter().any(|msg| msg.contains("FIX 6")));
    assert_eq!(calc.test_get_display_mode(), DisplayMode::Fix);
    assert_eq!(calc.test_get_display_digits(), 6);

    let (_calc, messages) = process_keys(&["s", "c", "i", "3"]);
    assert!(messages.iter().any(|msg| msg.contains("SCI 3")));

    let (_calc, messages) = process_keys(&["e", "n", "g", "2"]);
    assert!(messages.iter().any(|msg| msg.contains("ENG 2")));
}

#[test]
fn test_math_functions() {
    let mut calc = HP41CCalculator::new();

    // Test sin(pi/2) = 1
    calc.process_input("p").unwrap();
    calc.process_input("i").unwrap(); // This should complete "pi"
    calc.process_input("2").unwrap();
    calc.process_input("/").unwrap();
    calc.process_input("s").unwrap();
    calc.process_input("i").unwrap();
    calc.process_input("n").unwrap();
    answer_math(&mut calc);

    let result = value_to_f64(calc.test_get_stack()[0]);
    assert!(
        (result - 1.0).abs() < 1e-10,
        "sin(pi/2) should be 1.0, got {}",
        result
    );
}

#[test]
fn test_programming_mode_toggle() {
    let mut calc = HP41CCalculator::new();

    let result = calc.process_input(":").unwrap();
    assert!(result.is_some());
    assert!(result.unwrap().contains("Programming mode ON"));

    let result = calc.process_input(":").unwrap();
    assert!(result.is_some());
    assert!(result.unwrap().contains("Programming mode OFF"));
}

#[test]
fn test_number_entry_with_decimal() {
    let mut calc = HP41CCalculator::new();

    calc.process_input("1").unwrap();
    calc.process_input("2").unwrap();
    calc.process_input("3").unwrap();
    calc.process_input(".").unwrap();
    calc.process_input("4").unwrap();
    calc.process_input("5").unwrap();

    let stack = calc.test_get_stack();
    assert_eq!(stack[0], Value::from_parts(false, 12345, -2).unwrap());
}

#[test]
fn test_backspace_behavior() {
    let mut calc = HP41CCalculator::new();

    // Enter a number
    calc.process_input("1").unwrap();
    calc.process_input("2").unwrap();
    calc.process_input("3").unwrap();

    // Backspace should remove last digit
    calc.process_input("\u{8}").unwrap(); // Backspace

    let stack = calc.test_get_stack();
    assert_eq!(stack[0], v(12));
}

#[test]
fn test_clear_operations() {
    let mut calc = HP41CCalculator::new();

    // Put some values on stack
    calc.process_input("1").unwrap();
    calc.process_input("enter").unwrap();
    calc.process_input("2").unwrap();
    calc.process_input("enter").unwrap();
    calc.process_input("3").unwrap();

    // Test CLX (clear X)
    calc.process_input("c").unwrap();
    calc.process_input("l").unwrap();
    calc.process_input("x").unwrap();

    let stack = calc.test_get_stack();
    assert_eq!(stack[0], v(0)); // X should be 0
    assert_eq!(stack[1], v(2)); // Y should still be 2

    // Test CLR (clear all)
    calc.process_input("c").unwrap();
    calc.process_input("l").unwrap();
    calc.process_input("r").unwrap();

    let stack = calc.test_get_stack();
    assert_eq!(stack[0], v(0));
    assert_eq!(stack[1], v(0));
    assert_eq!(stack[2], v(0));
    assert_eq!(stack[3], v(0));
}

#[test]
fn test_swap_operation() {
    let mut calc = HP41CCalculator::new();

    // Put 5 in X and 3 in Y
    calc.process_input("5").unwrap();
    calc.process_input("enter").unwrap();
    calc.process_input("3").unwrap();

    // Swap X and Y
    calc.process_input("s").unwrap();
    calc.process_input("w").unwrap();
    calc.process_input("a").unwrap();
    calc.process_input("p").unwrap();

    let stack = calc.test_get_stack();
    assert_eq!(stack[0], v(5)); // X should now be 5
    assert_eq!(stack[1], v(3)); // Y should now be 3
}

#[test]
fn test_change_sign() {
    let mut calc = HP41CCalculator::new();

    calc.process_input("5").unwrap();
    calc.process_input("c").unwrap();
    calc.process_input("h").unwrap();
    calc.process_input("s").unwrap();

    let stack = calc.test_get_stack();
    assert_eq!(stack[0], v(5).negate());
}

#[test]
fn test_constants() {
    let mut calc = HP41CCalculator::new();

    // Test pi constant
    calc.process_input("p").unwrap();
    calc.process_input("i").unwrap();

    let stack = calc.test_get_stack();
    assert!((value_to_f64(stack[0]) - std::f64::consts::PI).abs() < 1e-10);
}

#[test]
fn test_display_output() {
    let calc = HP41CCalculator::new();
    let display = calc.get_display();

    // Display should contain stack registers
    assert!(display.contains("T:"));
    assert!(display.contains("Z:"));
    assert!(display.contains("Y:"));
    assert!(display.contains("X:"));

    // Display should contain command reference
    assert!(display.contains("sin cos tan"));
}

#[test]
fn debug_display_command() {
    let mut calc = HP41CCalculator::new();

    println!("=== Debug Display Command ===");

    let result1 = calc.process_input("f");
    println!(
        "After 'f': {:?}, buffer: '{}'",
        result1,
        calc.test_get_command_buffer()
    );

    let result2 = calc.process_input("i");
    println!(
        "After 'i': {:?}, buffer: '{}'",
        result2,
        calc.test_get_command_buffer()
    );

    let result3 = calc.process_input("x");
    println!(
        "After 'x': {:?}, buffer: '{}'",
        result3,
        calc.test_get_command_buffer()
    );

    let result5 = calc.process_input("6");
    println!(
        "After '6': {:?}, buffer: '{}'",
        result5,
        calc.test_get_command_buffer()
    );

    println!(
        "Display mode: {:?}, digits: {}",
        calc.test_get_display_mode(),
        calc.test_get_display_digits()
    );
}

#[test]
fn debug_storage_command() {
    let mut calc = HP41CCalculator::new();

    println!("=== Debug Storage Command ===");

    // Put 42 in X
    calc.process_input("4").unwrap();
    calc.process_input("2").unwrap();
    println!(
        "After entering 42: X = {:?}",
        calc.test_get_stack()[0]
    );

    // Try STO 05 step by step
    let result1 = calc.process_input("s");
    println!(
        "After 's': {:?}, buffer: '{}'",
        result1,
        calc.test_get_command_buffer()
    );

    let result2 = calc.process_input("t");
    println!(
        "After 't': {:?}, buffer: '{}'",
        result2,
        calc.test_get_command_buffer()
    );

    let result3 = calc.process_input("o");
    println!(
        "After 'o': {:?}, buffer: '{}'",
        result3,
        calc.test_get_command_buffer()
    );

    let result4 = calc.process_input("0");
    println!(
        "After '0': {:?}, buffer: '{}'",
        result4,
        calc.test_get_command_buffer()
    );

    let result5 = calc.process_input("5");
    println!(
        "After '5': {:?}, buffer: '{}'",
        result5,
        calc.test_get_command_buffer()
    );

    println!("Storage register 5: {:?}", calc.test_get_storage(5));
    println!("X register: {:?}", calc.test_get_stack()[0]);
}

#[test]
fn debug_recall_command() {
    let mut calc = HP41CCalculator::new();

    println!("=== Debug Recall Command ===");

    // First, manually store 42 in register 5
    calc.test_set_x_register(Value::from_int(42));
    let store_result = calc.execute_command("sto", Some(vec!["5".to_string()]));
    println!("Manual STO result: {:?}", store_result);
    println!(
        "Storage register 5 after manual store: {:?}",
        calc.test_get_storage(5)
    );

    // Clear X register
    calc.test_set_x_register(Value::from_int(0));
    println!("X register cleared to: {:?}", calc.test_get_stack()[0]);

    // Now try RCL step by step
    let result1 = calc.process_input("r");
    println!(
        "After 'r': {:?}, buffer: '{}'",
        result1,
        calc.test_get_command_buffer()
    );

    let result2 = calc.process_input("c");
    println!(
        "After 'c': {:?}, buffer: '{}'",
        result2,
        calc.test_get_command_buffer()
    );

    let result3 = calc.process_input("l");
    println!(
        "After 'l': {:?}, buffer: '{}'",
        result3,
        calc.test_get_command_buffer()
    );

    let result4 = calc.process_input("0");
    println!(
        "After '0': {:?}, buffer: '{}'",
        result4,
        calc.test_get_command_buffer()
    );

    let result5 = calc.process_input("5");
    println!(
        "After '5': {:?}, buffer: '{}'",
        result5,
        calc.test_get_command_buffer()
    );

    println!("Final X register: {:?}", calc.test_get_stack()[0]);
}

#[test]
fn test_display_shows_entry_and_command_state() {
    let mut calc = HP41CCalculator::new();
    calc.process_input("1").unwrap();
    calc.process_input("2").unwrap();
    // The X row shows the entry in progress with its cursor.
    assert!(calc.get_display().contains("12_"));

    // A register number being assembled shows a trailing underscore.
    calc.process_input("s").unwrap();
    calc.process_input("t").unwrap();
    calc.process_input("o").unwrap();
    calc.process_input("1").unwrap();
    assert_eq!(calc.test_get_command_buffer(), "CMD: [sto 1_]");
}

#[test]
fn test_power_through_host() {
    // The power operator is validated here and computed by the host; its
    // result drops the stack like any binary operation.
    let (calc, _) = process_keys(&["2", "enter", "1", "0", "^"]);
    assert_eq!(calc.test_get_stack()[0], v(1024));
}

#[test]
fn test_power_drop_preserves_t() {
    let (calc, _) = process_keys(&[
        "4", "enter", "3", "enter", "2", "enter", "3", "^",
    ]);
    let stack = calc.test_get_stack();
    assert_eq!(stack[0], v(8)); // 2^3
    assert_eq!(stack[1], v(3));
    assert_eq!(stack[2], v(4)); // old T duplicated
    assert_eq!(stack[3], v(4)); // T preserved
}

#[test]
fn test_eex_outside_entry_begins_with_zero() {
    let mut calc = HP41CCalculator::new();
    for key in ["e", "e", "x", "3"] {
        calc.process_input(key).unwrap();
    }
    // EEX with no entry in progress starts from mantissa "0".
    assert_eq!(calc.test_get_stack()[0], v(0));
}

#[test]
fn test_rcl_lifts_when_flag_set() {
    let mut calc = HP41CCalculator::new();
    calc.process_input("6").unwrap();
    calc.execute_command("sto", Some(vec!["03".to_string()])).unwrap();
    // A completed ENTER then a fresh number leaves the lift flag set once
    // the number entry ends with a command execution.
    calc.process_input("9").unwrap();
    calc.execute_command("enter", None).unwrap(); // X=9,Y=9, flag off
    calc.execute_command("rcl", Some(vec!["03".to_string()])).unwrap();
    let stack = calc.test_get_stack();
    // Flag was off, so RCL replaced X without lifting.
    assert_eq!(stack[0], v(6));
    assert_eq!(stack[1], v(9));
    // RCL sets the flag, so a second RCL lifts.
    calc.execute_command("rcl", Some(vec!["03".to_string()])).unwrap();
    let stack = calc.test_get_stack();
    assert_eq!(stack[0], v(6));
    assert_eq!(stack[1], v(6));
    assert_eq!(stack[2], v(9));
}
