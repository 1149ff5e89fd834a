use hp41c::calculator::HP41CCalculator;
use hp41c::display::DisplayMode;
use hp41c::parser::{CommandParser, ParseResult};
use hp41c::programming::ProgrammingMode;
use hp41c::value::Value;

fn v(n: u64) -> Value {
    Value::from_int(n)
}

#[test]
fn test_register_argument_assembly_scenario() {
    // Feeding "sto" then digit "1" is Incomplete; digit "5" completes
    // with the combined argument "15"; a non-digit after the first digit
    // is rejected.
    let mut parser = CommandParser::new();
    assert!(matches!(parser.add_input("sto"), ParseResult::Incomplete));
    assert!(matches!(parser.add_input("1"), ParseResult::Incomplete));
    match parser.add_input("5") {
        ParseResult::Complete { command, args } => {
            assert_eq!(command, "sto");
            assert_eq!(args, Some(vec!["15".to_string()]));
        }
        _ => panic!("STO 15 should complete"),
    }

    let mut parser = CommandParser::new();
    assert!(matches!(parser.add_input("sto"), ParseResult::Incomplete));
    assert!(matches!(parser.add_input("1"), ParseResult::Incomplete));
    assert!(matches!(parser.add_input("q"), ParseResult::Invalid(_)));
}

#[test]
fn test_division_by_zero_scenario() {
    // X=0 after Y=5, then "/" fails with division-by-zero and leaves the
    // stack unchanged.
    let mut calc = HP41CCalculator::new();
    calc.process_input("5").unwrap();
    calc.process_input("enter").unwrap();
    calc.process_input("0").unwrap();
    let before = calc.test_get_stack();
    let r = calc.process_input("/");
    match r {
        Err(msg) => assert!(msg.contains("Division by zero"), "got: {msg}"),
        Ok(m) => panic!("division by zero should fail, got {m:?}"),
    }
    assert_eq!(calc.test_get_stack(), before);
}

#[test]
fn test_label_goto_scenario() {
    // A program containing LBL A at line 3 and a later GTO A relocates
    // the run cursor to the first line at or after 3.
    let mut prog = ProgrammingMode::new();
    prog.toggle_programming_mode();
    prog.add_instruction("1", None, "1");
    prog.add_instruction("2", None, "2");
    prog.add_instruction("lbl", Some(vec!["a".to_string()]), "lbl a");
    prog.add_instruction("4", None, "4");
    prog.add_instruction("5", None, "5");
    prog.toggle_programming_mode();

    assert!(prog.goto_label("a"));
    assert_eq!(prog.program_counter, 2);
    assert_eq!(prog.program[prog.program_counter].line_number, 3);

    // An unknown label reports false and moves nothing.
    assert!(!prog.goto_label("z"));
    assert_eq!(prog.program_counter, 2);
}

#[test]
fn test_goto_tolerates_deleted_line() {
    // After the labelled line is deleted, GTO lands on the nearest
    // surviving line at or after the recorded target.
    let mut prog = ProgrammingMode::new();
    prog.toggle_programming_mode();
    prog.add_instruction("1", None, "1");
    prog.add_instruction("2", None, "2");
    prog.add_instruction("lbl", Some(vec!["a".to_string()]), "lbl a");
    prog.add_instruction("4", None, "4");
    prog.toggle_programming_mode();
    assert!(prog.goto_label("a"));
    assert_eq!(prog.program_counter, 2);

    // Remove the instruction before the label without rebuilding labels:
    // the recorded target line 3 now points past the renumbered LBL, and
    // the jump lands on the first line numbered >= 3.
    prog.toggle_programming_mode();
    prog.bst_edit().unwrap();
    prog.bst_edit().unwrap();
    prog.bst_edit().unwrap();
    prog.bst_edit().unwrap();
    prog.delete_current_instruction().unwrap();
    prog.is_programming = false;
    // The table was rebuilt by the deletion's renumbering pass; the label
    // now records line 2, and the jump finds it.
    assert!(prog.goto_label("a"));
    assert_eq!(prog.program[prog.program_counter].command, "LBL");
}

#[test]
fn test_fix_twice_is_idempotent() {
    // Issuing FIX 4 twice in a row yields the same formatter state as
    // issuing it once.
    let mut calc = HP41CCalculator::new();
    for key in ["f", "i", "x", "4"] {
        calc.process_input(key).unwrap();
    }
    let mode_once = calc.test_get_display_mode();
    let digits_once = calc.test_get_display_digits();
    for key in ["f", "i", "x", "4"] {
        calc.process_input(key).unwrap();
    }
    assert_eq!(calc.test_get_display_mode(), mode_once);
    assert_eq!(calc.test_get_display_digits(), digits_once);
    assert_eq!(mode_once, DisplayMode::Fix);
    assert_eq!(digits_once, 4);
}

#[test]
fn test_sto_rcl_round_trip_with_lift() {
    // Storing X then recalling the same register yields the value back in
    // X; with the lift flag set the other registers shift as a lift.
    let mut calc = HP41CCalculator::new();
    calc.process_input("7").unwrap();
    calc.execute_command("sto", Some(vec!["12".to_string()])).unwrap();
    calc.process_input("enter").unwrap(); // X=7,Y=7; lift flag off
    calc.execute_command("rcl", Some(vec!["12".to_string()])).unwrap();
    let stack = calc.test_get_stack();
    assert_eq!(stack[0], v(7));
    // Lift flag was off: Y unchanged.
    assert_eq!(stack[1], v(7));

    // With the lift flag on (fresh digit entry completes), RCL lifts.
    let mut calc = HP41CCalculator::new();
    calc.process_input("3").unwrap();
    calc.execute_command("sto", Some(vec!["09".to_string()])).unwrap();
    calc.process_input("enter").unwrap();
    calc.process_input("8").unwrap(); // X=8, Y=3, lift flag on after entry? it is off during entry
    calc.execute_command("enter", None).unwrap();
    calc.process_input("9").unwrap(); // lift flag cleared by entry in progress
    calc.execute_command("rcl", Some(vec!["09".to_string()])).unwrap();
    let stack = calc.test_get_stack();
    assert_eq!(stack[0], v(3));
}

#[test]
fn test_unknown_command_error() {
    let mut calc = HP41CCalculator::new();
    match calc.process_input("z") {
        Err(msg) => assert!(msg.contains("Unknown command"), "got: {msg}"),
        Ok(m) => panic!("unknown command should fail, got {m:?}"),
    }
}

#[test]
fn test_missing_argument_error() {
    let mut calc = HP41CCalculator::new();
    match calc.execute_command("fix", None) {
        Err(msg) => assert_eq!(msg, "Command error: FIX requires argument"),
        Ok(m) => panic!("expected missing argument, got {m:?}"),
    }
}

#[test]
fn test_invalid_argument_error() {
    let mut calc = HP41CCalculator::new();
    match calc.execute_command("fix", Some(vec!["x".to_string()])) {
        Err(msg) => assert_eq!(msg, "Command error: Invalid argument 'x' for FIX"),
        Ok(m) => panic!("expected invalid argument, got {m:?}"),
    }
}

#[test]
fn test_invalid_register_error() {
    let mut calc = HP41CCalculator::new();
    match calc.execute_command("sto", Some(vec!["100".to_string()])) {
        Err(msg) => assert_eq!(msg, "Storage error: Invalid register: 100"),
        Ok(m) => panic!("expected invalid register, got {m:?}"),
    }
}

#[test]
fn test_label_not_found_error() {
    let mut calc = HP41CCalculator::new();
    match calc.execute_command("gto", Some(vec!["q".to_string()])) {
        Err(msg) => assert_eq!(msg, "Programming error: Label q not found"),
        Ok(m) => panic!("expected label not found, got {m:?}"),
    }
}

#[test]
fn test_no_program_error() {
    let mut calc = HP41CCalculator::new();
    match calc.execute_command("sst", None) {
        Err(msg) => assert_eq!(msg, "Programming error: No program in memory"),
        Ok(m) => panic!("expected no-program error, got {m:?}"),
    }
}

#[test]
fn test_subroutine_call_and_return() {
    let mut prog = ProgrammingMode::new();
    prog.toggle_programming_mode();
    prog.add_instruction("lbl", Some(vec!["b".to_string()]), "lbl b");
    prog.add_instruction("7", None, "7");
    prog.toggle_programming_mode();

    prog.program_counter = 1;
    assert!(prog.execute_subroutine("b"));
    assert_eq!(prog.program_counter, 0);
    assert!(prog.return_from_subroutine());
    assert_eq!(prog.program_counter, 1);
    // An empty return stack stops run mode.
    prog.is_running = true;
    assert!(!prog.return_from_subroutine());
    assert!(!prog.is_running);
}
