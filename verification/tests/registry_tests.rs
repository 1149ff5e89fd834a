use hp41c::registry::{ArgumentPattern, AutoExecuteRule, CommandRegistry};

#[test]
fn test_registry_creation() {
    let registry = CommandRegistry::new();
    assert!(registry.has_command("sin"));
    assert!(registry.has_command("sto"));
    assert!(registry.has_command("fix"));
    assert!(!registry.has_command("invalid"));
}

#[test]
fn test_command_specs() {
    let registry = CommandRegistry::new();

    let sin_spec = registry.get_spec("sin").unwrap();
    assert_eq!(sin_spec.name, "sin");
    assert!(matches!(sin_spec.arg_pattern, ArgumentPattern::NoArg));
    assert!(matches!(sin_spec.auto_execute, AutoExecuteRule::Immediate));

    let sto_spec = registry.get_spec("sto").unwrap();
    assert_eq!(sto_spec.name, "sto");
    assert!(matches!(sto_spec.arg_pattern, ArgumentPattern::Register));
    assert!(matches!(sto_spec.auto_execute, AutoExecuteRule::OnComplete));
}

#[test]
fn test_commands_by_pattern() {
    let registry = CommandRegistry::new();

    let math_commands = registry.get_commands_by_pattern(&ArgumentPattern::NoArg);
    assert!(math_commands.iter().any(|spec| spec.name == "sin"));
    assert!(math_commands.iter().any(|spec| spec.name == "cos"));

    let storage_commands = registry.get_commands_by_pattern(&ArgumentPattern::Register);
    assert!(storage_commands.iter().any(|spec| spec.name == "sto"));
    assert!(storage_commands.iter().any(|spec| spec.name == "rcl"));
}

#[test]
fn test_command_count() {
    let registry = CommandRegistry::new();
    let command_names = registry.get_command_names();
    assert!(
        command_names.len() > 30,
        "Should have plenty of commands registered"
    );
}

#[test]
fn test_register_replaces_existing() {
    let mut registry = CommandRegistry::new();
    let before = registry.get_command_names().len();
    let mut spec = registry.get_spec("sin").unwrap().clone();
    spec.description = Some("replaced".to_string());
    registry.register(spec);
    assert_eq!(registry.get_command_names().len(), before);
    assert_eq!(
        registry.get_spec("sin").unwrap().description.as_deref(),
        Some("replaced")
    );
}
