use hp41c::parser::{CommandParser, ParseResult};

#[test]
fn test_immediate_commands() {
    let mut parser = CommandParser::new();

    // SIN should execute immediately
    match parser.add_input("sin") {
        ParseResult::Complete { command, args } => {
            assert_eq!(command, "sin");
            assert_eq!(args, None);
        }
        _ => panic!("SIN should complete immediately"),
    }
}

#[test]
fn test_command_building() {
    let mut parser = CommandParser::new();

    // Build "fix" letter by letter
    assert!(matches!(parser.add_input("f"), ParseResult::Incomplete));
    assert!(matches!(parser.add_input("i"), ParseResult::Incomplete));
    assert!(matches!(parser.add_input("x"), ParseResult::Incomplete));

    // Adding digit should complete
    match parser.add_input("4") {
        ParseResult::Complete { command, args } => {
            assert_eq!(command, "fix");
            assert_eq!(args, Some(vec!["4".to_string()]));
        }
        _ => panic!("FIX 4 should complete"),
    }
}

#[test]
fn test_register_building() {
    let mut parser = CommandParser::new();

    // Build "sto" command
    assert!(matches!(parser.add_input("s"), ParseResult::Incomplete));
    assert!(matches!(parser.add_input("t"), ParseResult::Incomplete));
    assert!(matches!(parser.add_input("o"), ParseResult::Incomplete));

    // First digit should be incomplete
    assert!(matches!(parser.add_input("1"), ParseResult::Incomplete));

    // Second digit should complete
    match parser.add_input("5") {
        ParseResult::Complete { command, args } => {
            assert_eq!(command, "sto");
            assert_eq!(args, Some(vec!["15".to_string()]));
        }
        _ => panic!("STO 15 should complete"),
    }
}

#[test]
fn test_invalid_commands() {
    let mut parser = CommandParser::new();

    // Invalid command should be rejected
    match parser.add_input("xyz") {
        ParseResult::Invalid(_) => {} // Expected
        _ => panic!("Invalid command should be rejected"),
    }
}

#[test]
fn test_display_state() {
    let mut parser = CommandParser::new();

    // Empty state
    assert_eq!(parser.get_current_state(), "CMD: []");

    // Building command
    assert!(matches!(parser.add_input("f"), ParseResult::Incomplete));
    assert!(matches!(parser.add_input("i"), ParseResult::Incomplete));
    assert!(parser.get_current_state().contains("fi"));

    // Complete command waiting for args
    assert!(matches!(parser.add_input("x"), ParseResult::Incomplete));
    assert!(parser.get_current_state().contains("fix"));
}

#[test]
fn test_force_complete() {
    let mut parser = CommandParser::new();

    // Build partial command
    assert!(matches!(parser.add_input("f"), ParseResult::Incomplete));
    assert!(matches!(parser.add_input("i"), ParseResult::Incomplete));
    assert!(matches!(parser.add_input("x"), ParseResult::Incomplete));

    // Force completion should work
    match parser.force_complete() {
        ParseResult::Complete { command, args } => {
            assert_eq!(command, "fix");
            assert_eq!(args, None);
        }
        _ => panic!("Force complete should work"),
    }
}

#[test]
fn test_register_argument_rejects_non_digit() {
    let mut parser = CommandParser::new();

    // Feeding "sto" then "1" is held as an incomplete register number;
    // a non-digit second token is rejected.
    assert!(matches!(parser.add_input("s"), ParseResult::Incomplete));
    assert!(matches!(parser.add_input("t"), ParseResult::Incomplete));
    assert!(matches!(parser.add_input("o"), ParseResult::Incomplete));
    assert!(matches!(parser.add_input("1"), ParseResult::Incomplete));
    assert!(matches!(parser.add_input("x"), ParseResult::Invalid(_)));
}

#[test]
fn test_zero_arg_command_letters_never_invalid() {
    // Feeding the letters of a registered zero-argument command one at a
    // time never rejects partway, and the last letter completes it with
    // no arguments.
    for name in ["exp", "enter", "swap", "clx", "sqrt", "prgm"] {
        let mut parser = CommandParser::new();
        let chars: Vec<String> = name.chars().map(|c| c.to_string()).collect();
        for (i, ch) in chars.iter().enumerate() {
            let r = parser.add_input(ch);
            if i + 1 < chars.len() {
                assert!(
                    matches!(r, ParseResult::Incomplete),
                    "prefix of {name} rejected"
                );
            } else {
                match r {
                    ParseResult::Complete { command, args } => {
                        assert_eq!(command, *name);
                        assert_eq!(args, None);
                    }
                    _ => panic!("final letter of {name} did not complete"),
                }
            }
        }
    }
}

#[test]
fn test_invalid_token_keeps_parser_state() {
    let mut parser = CommandParser::new();

    assert!(matches!(parser.add_input("f"), ParseResult::Incomplete));
    // A letter that extends "f" to no registered name is rejected and the
    // committed prefix stays usable.
    assert!(matches!(parser.add_input("z"), ParseResult::Invalid(_)));
    assert!(matches!(parser.add_input("i"), ParseResult::Incomplete));
    assert!(matches!(parser.add_input("x"), ParseResult::Incomplete));
    match parser.add_input("0") {
        ParseResult::Complete { command, args } => {
            assert_eq!(command, "fix");
            assert_eq!(args, Some(vec!["0".to_string()]));
        }
        _ => panic!("FIX 0 should complete"),
    }
}
