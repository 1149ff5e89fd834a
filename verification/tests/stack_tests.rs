use hp41c::error::StackError;
use hp41c::stack::Stack;
use hp41c::value::Value;

fn v(n: u64) -> Value {
    Value::from_int(n)
}

#[test]
fn test_stack_lift() {
    let mut stack = Stack::new();
    stack.set_registers(v(1), v(2), v(3), v(4));

    stack.lift();

    assert_eq!(stack.get_registers(), [v(1), v(1), v(2), v(3)]);
}

#[test]
fn test_stack_drop_preserves_t() {
    let mut stack = Stack::new();
    stack.set_registers(v(0), v(2), v(3), v(4));

    // Perform an operation that causes drop
    let result = stack.add().unwrap();

    assert_eq!(result, v(2)); // 2 + 0 = 2
    assert_eq!(stack.get_x(), v(2));
    assert_eq!(stack.get_y(), v(3));
    assert_eq!(stack.get_z(), v(4)); // Old T value
    assert_eq!(stack.get_t(), v(4)); // T unchanged
}

#[test]
fn test_division_by_zero() {
    let mut stack = Stack::new();
    stack.set_x(v(5)); // Y will be 5
    stack.lift(); // Now Y=5, X=5
    stack.set_x(v(0)); // Now Y=5, X=0

    // This should try to compute 5/0
    assert_eq!(stack.divide(), Err(StackError::DivisionByZero));
}

#[test]
fn test_swap() {
    let mut stack = Stack::new();
    stack.set_registers(v(1), v(2), v(3), v(4));

    stack.swap();

    assert_eq!(stack.get_x(), v(2));
    assert_eq!(stack.get_y(), v(1));
    assert_eq!(stack.get_z(), v(3));
    assert_eq!(stack.get_t(), v(4));
}

#[test]
fn test_lift_twice_discards_t() {
    // lift;lift is not an inverse of the drop: the original T is gone,
    // while a binary operation's drop keeps T.
    let mut stack = Stack::new();
    stack.set_registers(v(1), v(2), v(3), v(4));

    stack.lift();
    stack.lift();

    assert_eq!(stack.get_registers(), [v(1), v(1), v(1), v(2)]);
    assert!(!stack
        .get_registers()
        .iter()
        .skip(1)
        .any(|r| *r == v(4)));
}

#[test]
fn test_push_respects_lift_flag() {
    let mut stack = Stack::new();
    stack.push(v(5));
    stack.push(v(3));
    assert_eq!(stack.get_x(), v(3));
    assert_eq!(stack.get_y(), v(5));
}

#[test]
fn test_binary_overflow_is_reported() {
    // The largest representable magnitudes overflow when multiplied.
    let big = Value::from_parts(false, 9, 307).unwrap();
    let mut stack = Stack::new();
    stack.set_registers(big, big, v(0), v(0));
    match stack.multiply() {
        Err(StackError::MathError(m)) => assert_eq!(m, "Overflow"),
        other => panic!("expected overflow, got {other:?}"),
    }
    // Nothing moved.
    assert_eq!(stack.get_x(), big);
    assert_eq!(stack.get_y(), big);
}
