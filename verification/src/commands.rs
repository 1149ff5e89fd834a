//! Helper functions over the command registry.

use crate::registry::{ArgumentPattern, AutoExecuteRule, CommandRegistry, CommandSpec,
    is_builtin_name, lemma_lookup_some_contains, spec_lookup};
use crate::text::str_lower;
use vstd::prelude::*;
use vstd::string::*;

verus! {

/// Whether a string names a built-in command (case-insensitively).
pub fn is_valid_command(command: &str) -> (r: bool)
    ensures
        r == is_builtin_name(crate::text::spec_lower_seq(command@)),
        crate::text::spec_lower_seq(command@) == "sin"@ ==> r,
        crate::text::spec_lower_seq(command@) == "cos"@ ==> r,
        crate::text::spec_lower_seq(command@) == "tan"@ ==> r,
        crate::text::spec_lower_seq(command@) == "asin"@ ==> r,
        crate::text::spec_lower_seq(command@) == "acos"@ ==> r,
        crate::text::spec_lower_seq(command@) == "atan"@ ==> r,
        crate::text::spec_lower_seq(command@) == "log"@ ==> r,
        crate::text::spec_lower_seq(command@) == "ln"@ ==> r,
        crate::text::spec_lower_seq(command@) == "exp"@ ==> r,
        crate::text::spec_lower_seq(command@) == "sqrt"@ ==> r,
        crate::text::spec_lower_seq(command@) == "inv"@ ==> r,
        crate::text::spec_lower_seq(command@) == "chs"@ ==> r,
        crate::text::spec_lower_seq(command@) == "enter"@ ==> r,
        crate::text::spec_lower_seq(command@) == "swap"@ ==> r,
        crate::text::spec_lower_seq(command@) == "clx"@ ==> r,
        crate::text::spec_lower_seq(command@) == "clr"@ ==> r,
        crate::text::spec_lower_seq(command@) == "+"@ ==> r,
        crate::text::spec_lower_seq(command@) == "-"@ ==> r,
        crate::text::spec_lower_seq(command@) == "*"@ ==> r,
        crate::text::spec_lower_seq(command@) == "/"@ ==> r,
        crate::text::spec_lower_seq(command@) == "^"@ ==> r,
        crate::text::spec_lower_seq(command@) == "!"@ ==> r,
        crate::text::spec_lower_seq(command@) == "rtn"@ ==> r,
        crate::text::spec_lower_seq(command@) == "sst"@ ==> r,
        crate::text::spec_lower_seq(command@) == "bst"@ ==> r,
        crate::text::spec_lower_seq(command@) == "prgm"@ ==> r,
        crate::text::spec_lower_seq(command@) == "pi"@ ==> r,
        crate::text::spec_lower_seq(command@) == "eex"@ ==> r,
        crate::text::spec_lower_seq(command@) == "arc"@ ==> r,
        crate::text::spec_lower_seq(command@) == "fix"@ ==> r,
        crate::text::spec_lower_seq(command@) == "sci"@ ==> r,
        crate::text::spec_lower_seq(command@) == "eng"@ ==> r,
        crate::text::spec_lower_seq(command@) == "sto"@ ==> r,
        crate::text::spec_lower_seq(command@) == "rcl"@ ==> r,
        crate::text::spec_lower_seq(command@) == "lbl"@ ==> r,
        crate::text::spec_lower_seq(command@) == "gto"@ ==> r,
        crate::text::spec_lower_seq(command@) == "xeq"@ ==> r,
{
    let registry = CommandRegistry::new();
    let lower = str_lower(command);
    registry.has_command(lower.as_str())
}

/// All registered command names.
pub fn get_all_commands() -> (r: Vec<String>) {
    let registry = CommandRegistry::new();
    registry.get_command_names()
}

/// The specification registered for a command name, if any: its name is
/// the lowercased query, with the pattern and rule the table assigns it.
pub fn get_command_spec(command: &str) -> (r: Option<CommandSpec>)
    ensures
        r is Some <==> is_builtin_name(crate::text::spec_lower_seq(command@)),
        r matches Some(sp) ==> sp.name@ == crate::text::spec_lower_seq(command@),
        crate::text::spec_lower_seq(command@) == "sin"@ ==> (r matches Some(sp) && sp.arg_pattern is NoArg && sp.auto_execute is Immediate),
        crate::text::spec_lower_seq(command@) == "cos"@ ==> (r matches Some(sp) && sp.arg_pattern is NoArg && sp.auto_execute is Immediate),
        crate::text::spec_lower_seq(command@) == "tan"@ ==> (r matches Some(sp) && sp.arg_pattern is NoArg && sp.auto_execute is Immediate),
        crate::text::spec_lower_seq(command@) == "asin"@ ==> (r matches Some(sp) && sp.arg_pattern is NoArg && sp.auto_execute is Immediate),
        crate::text::spec_lower_seq(command@) == "acos"@ ==> (r matches Some(sp) && sp.arg_pattern is NoArg && sp.auto_execute is Immediate),
        crate::text::spec_lower_seq(command@) == "atan"@ ==> (r matches Some(sp) && sp.arg_pattern is NoArg && sp.auto_execute is Immediate),
        crate::text::spec_lower_seq(command@) == "log"@ ==> (r matches Some(sp) && sp.arg_pattern is NoArg && sp.auto_execute is Immediate),
        crate::text::spec_lower_seq(command@) == "ln"@ ==> (r matches Some(sp) && sp.arg_pattern is NoArg && sp.auto_execute is Immediate),
        crate::text::spec_lower_seq(command@) == "exp"@ ==> (r matches Some(sp) && sp.arg_pattern is NoArg && sp.auto_execute is Immediate),
        crate::text::spec_lower_seq(command@) == "sqrt"@ ==> (r matches Some(sp) && sp.arg_pattern is NoArg && sp.auto_execute is Immediate),
        crate::text::spec_lower_seq(command@) == "inv"@ ==> (r matches Some(sp) && sp.arg_pattern is NoArg && sp.auto_execute is Immediate),
        crate::text::spec_lower_seq(command@) == "chs"@ ==> (r matches Some(sp) && sp.arg_pattern is NoArg && sp.auto_execute is Immediate),
        crate::text::spec_lower_seq(command@) == "enter"@ ==> (r matches Some(sp) && sp.arg_pattern is NoArg && sp.auto_execute is Immediate),
        crate::text::spec_lower_seq(command@) == "swap"@ ==> (r matches Some(sp) && sp.arg_pattern is NoArg && sp.auto_execute is Immediate),
        crate::text::spec_lower_seq(command@) == "clx"@ ==> (r matches Some(sp) && sp.arg_pattern is NoArg && sp.auto_execute is Immediate),
        crate::text::spec_lower_seq(command@) == "clr"@ ==> (r matches Some(sp) && sp.arg_pattern is NoArg && sp.auto_execute is Immediate),
        crate::text::spec_lower_seq(command@) == "+"@ ==> (r matches Some(sp) && sp.arg_pattern is NoArg && sp.auto_execute is Immediate),
        crate::text::spec_lower_seq(command@) == "-"@ ==> (r matches Some(sp) && sp.arg_pattern is NoArg && sp.auto_execute is Immediate),
        crate::text::spec_lower_seq(command@) == "*"@ ==> (r matches Some(sp) && sp.arg_pattern is NoArg && sp.auto_execute is Immediate),
        crate::text::spec_lower_seq(command@) == "/"@ ==> (r matches Some(sp) && sp.arg_pattern is NoArg && sp.auto_execute is Immediate),
        crate::text::spec_lower_seq(command@) == "^"@ ==> (r matches Some(sp) && sp.arg_pattern is NoArg && sp.auto_execute is Immediate),
        crate::text::spec_lower_seq(command@) == "!"@ ==> (r matches Some(sp) && sp.arg_pattern is NoArg && sp.auto_execute is Immediate),
        crate::text::spec_lower_seq(command@) == "rtn"@ ==> (r matches Some(sp) && sp.arg_pattern is NoArg && sp.auto_execute is Immediate),
        crate::text::spec_lower_seq(command@) == "sst"@ ==> (r matches Some(sp) && sp.arg_pattern is NoArg && sp.auto_execute is Immediate),
        crate::text::spec_lower_seq(command@) == "bst"@ ==> (r matches Some(sp) && sp.arg_pattern is NoArg && sp.auto_execute is Immediate),
        crate::text::spec_lower_seq(command@) == "prgm"@ ==> (r matches Some(sp) && sp.arg_pattern is NoArg && sp.auto_execute is Immediate),
        crate::text::spec_lower_seq(command@) == "pi"@ ==> (r matches Some(sp) && sp.arg_pattern is NoArg && sp.auto_execute is Immediate),
        crate::text::spec_lower_seq(command@) == "eex"@ ==> (r matches Some(sp) && sp.arg_pattern is NoArg && sp.auto_execute is Immediate),
        crate::text::spec_lower_seq(command@) == "arc"@ ==> (r matches Some(sp) && sp.arg_pattern is NoArg && sp.auto_execute is Immediate),
        crate::text::spec_lower_seq(command@) == "fix"@ ==> (r matches Some(sp) && sp.arg_pattern is SingleDigit && sp.auto_execute is OnComplete),
        crate::text::spec_lower_seq(command@) == "sci"@ ==> (r matches Some(sp) && sp.arg_pattern is SingleDigit && sp.auto_execute is OnComplete),
        crate::text::spec_lower_seq(command@) == "eng"@ ==> (r matches Some(sp) && sp.arg_pattern is SingleDigit && sp.auto_execute is OnComplete),
        crate::text::spec_lower_seq(command@) == "sto"@ ==> (r matches Some(sp) && sp.arg_pattern is Register && sp.auto_execute is OnComplete),
        crate::text::spec_lower_seq(command@) == "rcl"@ ==> (r matches Some(sp) && sp.arg_pattern is Register && sp.auto_execute is OnComplete),
        crate::text::spec_lower_seq(command@) == "lbl"@ ==> (r matches Some(sp) && sp.arg_pattern is Label && sp.auto_execute is OnComplete),
        crate::text::spec_lower_seq(command@) == "gto"@ ==> (r matches Some(sp) && sp.arg_pattern is Label && sp.auto_execute is OnComplete),
        crate::text::spec_lower_seq(command@) == "xeq"@ ==> (r matches Some(sp) && sp.arg_pattern is Alpha && sp.auto_execute is OnComplete),
{
    let registry = CommandRegistry::new();
    let lower = str_lower(command);
    match registry.get_spec(lower.as_str()) {
        Some(sp) => {
            proof {
                lemma_lookup_some_contains(registry@, lower@);
            }
            Some(sp.clone())
        },
        None => None,
    }
}

} // verus!
