use hp41c::commands::{get_all_commands, get_command_spec, is_valid_command};
use hp41c::registry::{ArgumentPattern, AutoExecuteRule};

#[test]
fn test_command_validation() {
    assert!(is_valid_command("sin"));
    assert!(is_valid_command("STO"));
    assert!(is_valid_command("fix"));
    assert!(!is_valid_command("invalid"));
}

#[test]
fn test_get_all_commands() {
    let commands = get_all_commands();
    assert!(commands.contains(&"sin".to_string()));
    assert!(commands.contains(&"sto".to_string()));
    assert!(commands.contains(&"fix".to_string()));
    assert!(commands.len() > 20);
}

#[test]
fn test_command_spec_retrieval() {
    let sin_spec = get_command_spec("sin").unwrap();
    assert_eq!(sin_spec.name, "sin");
    assert!(matches!(sin_spec.arg_pattern, ArgumentPattern::NoArg));
    assert!(matches!(sin_spec.auto_execute, AutoExecuteRule::Immediate));

    let sto_spec = get_command_spec("sto").unwrap();
    assert_eq!(sto_spec.name, "sto");
    assert!(matches!(sto_spec.arg_pattern, ArgumentPattern::Register));
    assert!(matches!(sto_spec.auto_execute, AutoExecuteRule::OnComplete));

    assert!(get_command_spec("invalid").is_none());
}
