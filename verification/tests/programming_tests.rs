use hp41c::calculator::HP41CCalculator;
use hp41c::programming::{ProgramInstruction, ProgrammingMode};
use hp41c::value::Value;

fn v(n: u64) -> Value {
    Value::from_int(n)
}

#[test]
fn test_add_instruction_requires_programming_mode() {
    let mut prog = ProgrammingMode::new();
    assert!(!prog.add_instruction("lbl", Some(vec!["a".to_string()]), "lbl a"));
    assert_eq!(prog.program.len(), 0);

    prog.toggle_programming_mode();
    assert!(prog.add_instruction("lbl", Some(vec!["a".to_string()]), "lbl a"));
    assert_eq!(prog.program.len(), 1);
    // Commands and arguments are stored uppercased, lines renumbered from 1.
    assert_eq!(prog.program[0].command, "LBL");
    assert_eq!(prog.program[0].arguments, vec!["A".to_string()]);
    assert_eq!(prog.program[0].line_number, 1);
}

#[test]
fn test_insert_renumbers_and_rebuilds_labels() {
    let mut prog = ProgrammingMode::new();
    prog.toggle_programming_mode();
    prog.add_instruction("1", None, "1");
    prog.add_instruction("lbl", Some(vec!["c".to_string()]), "lbl c");
    // Move the edit cursor to the front and insert: everything renumbers.
    prog.bst_edit().unwrap();
    prog.bst_edit().unwrap();
    prog.add_instruction("9", None, "9");
    assert_eq!(prog.program[0].command, "9");
    let lines: Vec<i32> = prog.program.iter().map(|i| i.line_number).collect();
    assert_eq!(lines, vec![1, 2, 3]);
    // The label table tracked the renumbering.
    prog.toggle_programming_mode();
    assert!(prog.goto_label("C"));
    assert_eq!(prog.program_counter, 2);
}

#[test]
fn test_delete_current_instruction() {
    let mut prog = ProgrammingMode::new();
    prog.toggle_programming_mode();
    prog.add_instruction("1", None, "1");
    prog.add_instruction("2", None, "2");
    prog.bst_edit().unwrap();
    prog.bst_edit().unwrap();
    let msg = prog.delete_current_instruction().unwrap().unwrap();
    assert!(msg.contains("Deleted: 1"));
    assert_eq!(prog.program.len(), 1);
    assert_eq!(prog.program[0].command, "2");
    assert_eq!(prog.program[0].line_number, 1);
}

#[test]
fn test_delete_outside_programming_mode_fails() {
    let mut prog = ProgrammingMode::new();
    assert_eq!(
        prog.delete_current_instruction(),
        Err("Not in programming mode".to_string())
    );
}

#[test]
fn test_insert_at_line_replaces_or_inserts() {
    let mut prog = ProgrammingMode::new();
    prog.insert_at_line(ProgramInstruction::new(1, "A".to_string(), vec![]));
    prog.insert_at_line(ProgramInstruction::new(3, "C".to_string(), vec![]));
    // Inserting at an occupied line replaces it.
    prog.insert_at_line(ProgramInstruction::new(1, "B".to_string(), vec![]));
    assert_eq!(prog.program.len(), 2);
    assert_eq!(prog.program[0].command, "B");
    // Inserting between lines keeps the order.
    prog.insert_at_line(ProgramInstruction::new(2, "D".to_string(), vec![]));
    let cmds: Vec<String> = prog.program.iter().map(|i| i.command.clone()).collect();
    assert_eq!(cmds, vec!["B", "D", "C"]);
}

#[test]
fn test_instruction_display_string() {
    let instr = ProgramInstruction::new(3, "LBL".to_string(), vec!["A".to_string()]);
    assert_eq!(instr.display_string(), "LBL A");
    let bare = ProgramInstruction::new(1, "RTN".to_string(), vec![]);
    assert_eq!(bare.display_string(), "RTN");
}

#[test]
fn test_step_display() {
    let mut prog = ProgrammingMode::new();
    assert_eq!(prog.get_current_step_display(), ".END.");
    prog.toggle_programming_mode();
    prog.add_instruction("lbl", Some(vec!["a".to_string()]), "lbl a");
    // The next-line counter advances past the renumbered length.
    assert_eq!(prog.get_current_step_display(), "03 .END.");
    prog.bst_edit().unwrap();
    assert_eq!(prog.get_current_step_display(), "01 LBL A");
}

#[test]
fn test_sst_execute_steps_and_pauses() {
    let mut calc = HP41CCalculator::new();
    calc.process_input(":").unwrap();
    // A digit keystroke in programming mode is recorded directly.
    calc.process_input("7").unwrap();
    calc.process_input(":").unwrap();

    // Run one step: the recorded digit "7" is not a command, so executing
    // it fails, but the step still advances the counter and pauses.
    let r = calc.sst_execute();
    assert!(r.is_err());
    assert_eq!(calc.test_get_program_counter(), 1);
    // Past the end, only the end marker is reported.
    let r = calc.sst_execute().unwrap();
    assert_eq!(r, Some(".END. 49".to_string()));
}

#[test]
fn test_xeq_starts_subroutine() {
    let mut calc = HP41CCalculator::new();
    calc.process_input(":").unwrap();
    for key in ["l", "b", "l", "m"] {
        calc.process_input(key).unwrap();
    }
    calc.process_input(":").unwrap();
    let r = calc.execute_command("xeq", Some(vec!["m".to_string()]));
    assert!(r.is_ok());
    assert_eq!(calc.test_get_program_counter(), 0);
}

#[test]
fn test_eex_keystrokes() {
    let mut calc = HP41CCalculator::new();
    for key in ["1", ".", "5", "e", "e", "x", "2"] {
        calc.process_input(key).unwrap();
    }
    assert_eq!(calc.test_get_stack()[0], v(150));
}

#[test]
fn test_overflow_guard_keeps_x() {
    // Entering more digits than the mantissa allows fails with an
    // overflow and leaves the previously-entered value in X.
    let mut calc = HP41CCalculator::new();
    for _ in 0..15 {
        calc.process_input("9").unwrap();
    }
    let before = calc.test_get_stack();
    let r = calc.process_input("9");
    assert!(r.is_err());
    assert_eq!(calc.test_get_stack(), before);
}

#[test]
fn test_deg_rad_conversions() {
    let half_turn = hp41c::math::deg_to_rad(Value::from_int(180)).unwrap();
    // 180 degrees is pi radians.
    assert_eq!(half_turn.mant, 314_159_265_358_979);
    assert_eq!(half_turn.exp, 0);
    let back = hp41c::math::rad_to_deg(half_turn).unwrap();
    assert_eq!(back, Value::from_int(180));
}

#[test]
fn test_sst_trace_includes_arguments() {
    let mut calc = HP41CCalculator::new();
    calc.process_input(":").unwrap();
    calc.test_add_program_instruction("lbl", Some(vec!["a".to_string()]));
    calc.test_add_program_instruction("chs", None);
    calc.process_input(":").unwrap();

    // LBL executes as a no-op outside recording, and the trace line shows
    // the instruction with its argument.
    let r = calc.sst_execute().unwrap();
    assert_eq!(r, Some("SST: LBL A".to_string()));
    let r = calc.sst_execute().unwrap();
    assert_eq!(r, Some("SST: CHS".to_string()));
}
