//! Keystroke-by-keystroke command parser.
//!
//! Each call to `add_input` receives one token (usually a single character)
//! and updates the parsing state: an unknown token is rejected, a token
//! that is or extends a prefix of a registered name keeps building, a
//! completed zero-argument command fires immediately, and a command with an
//! argument pattern waits for its arguments (a register number is assembled
//! one digit at a time and never completes on the first digit).
//!
//! The whole transition relation is written down once as `spec_step`;
//! `add_input` is proved to implement it exactly. Rejected input leaves the
//! parser state exactly as it was, so the committed name is always empty, a
//! registered command, or a prefix of one.

use crate::registry::{ArgumentPattern, AutoExecuteRule, CommandRegistry, CommandSpec, cmd_is,
    is_builtin_name, is_command_table, lemma_table_facts, spec_lookup, spec_some_name_extends};
use crate::text::{spec_is_alnum, spec_is_digit, spec_join, spec_lower_seq, is_alnum, is_digit,
    join_with_spaces, str_eq, str_lower};
use vstd::prelude::*;
use vstd::string::*;

verus! {

/// Result of parsing a command input.
#[derive(Debug, Clone)]
pub enum ParseResult {
    /// Still building the command, need more input.
    Incomplete,
    /// Command is complete and ready to execute.
    Complete { command: String, args: Option<Vec<String>> },
    /// Invalid input.
    Invalid(String),
}

/// Spec-level outcome of one parser step.
pub enum StepOutcome {
    /// More input is needed.
    Incomplete,
    /// A command completed, with its argument list (`None` when it takes
    /// no arguments).
    Complete { command: Seq<char>, args: Option<Seq<Seq<char>>> },
    /// The input was rejected with this message.
    Invalid(Seq<char>),
}

/// Spec-level parser state after a step, together with its outcome.
pub struct StepSpec {
    /// The committed command name (or in-progress prefix) after the step.
    pub cmd: Seq<char>,
    /// The collected arguments after the step.
    pub args: Seq<Seq<char>>,
    /// What the step reported.
    pub out: StepOutcome,
}

/// Whether `input` is acceptable as an argument under `pattern`.
pub open spec fn spec_valid_arg(input: Seq<char>, pattern: ArgumentPattern) -> bool {
    match pattern {
        ArgumentPattern::NoArg => false,
        ArgumentPattern::SingleDigit => input.len() == 1 && spec_is_digit(input[0]),
        ArgumentPattern::Register => true,
        ArgumentPattern::Label => input.len() == 1 && spec_is_alnum(input[0]),
        ArgumentPattern::Alpha => input.len() > 0 && (forall|i: int|
            0 <= i < input.len() ==> spec_is_alnum(#[trigger] input[i]) || input[i] == '_'),
        ArgumentPattern::Custom => false,
    }
}

/// Whether the collected arguments satisfy `pattern`.
pub open spec fn spec_args_complete(args: Seq<Seq<char>>, pattern: ArgumentPattern) -> bool {
    match pattern {
        ArgumentPattern::NoArg => true,
        ArgumentPattern::Register => false,
        _ => args.len() > 0,
    }
}

/// One parser step from the empty state: lowercase the token; a registered
/// zero-argument name completes immediately, a registered name with
/// arguments is committed, a prefix of some registered name is committed,
/// and anything else is rejected.
pub open spec fn spec_start(reg: Seq<CommandSpec>, args: Seq<Seq<char>>, input: Seq<char>) -> StepSpec {
    let low = spec_lower_seq(input);
    match spec_lookup(reg, low) {
        Some(sp) => if sp.arg_pattern is NoArg {
            StepSpec {
                cmd: Seq::empty(),
                args: Seq::empty(),
                out: StepOutcome::Complete { command: low, args: None },
            }
        } else {
            StepSpec { cmd: low, args: Seq::empty(), out: StepOutcome::Incomplete }
        },
        None => if spec_some_name_extends(reg, low) {
            StepSpec { cmd: low, args: Seq::empty(), out: StepOutcome::Incomplete }
        } else {
            StepSpec {
                cmd: Seq::empty(),
                args: args,
                out: StepOutcome::Invalid("Unknown command: "@ + input),
            }
        },
    }
}

/// One parser step while a name is still only a prefix: append the
/// lowercased token and re-test for completeness, then prefixness.
pub open spec fn spec_continue(
    reg: Seq<CommandSpec>,
    cmd: Seq<char>,
    args: Seq<Seq<char>>,
    input: Seq<char>,
) -> StepSpec {
    let newc = cmd + spec_lower_seq(input);
    match spec_lookup(reg, newc) {
        Some(sp) => if sp.arg_pattern is NoArg {
            StepSpec {
                cmd: Seq::empty(),
                args: Seq::empty(),
                out: StepOutcome::Complete { command: newc, args: None },
            }
        } else {
            StepSpec { cmd: newc, args: Seq::empty(), out: StepOutcome::Incomplete }
        },
        None => if spec_some_name_extends(reg, newc) {
            StepSpec { cmd: newc, args: Seq::empty(), out: StepOutcome::Incomplete }
        } else {
            StepSpec {
                cmd: cmd,
                args: args,
                out: StepOutcome::Invalid("Unknown command: "@ + newc),
            }
        },
    }
}

/// One parser step while a committed command awaits arguments. A register
/// number is built as exactly two digits, the first held without
/// completing; other patterns validate the token, collect it, and complete
/// as soon as the pattern is satisfied (firing only under `OnComplete`).
/// A rejected token leaves the state unchanged.
pub open spec fn spec_add_arg(
    sp: CommandSpec,
    cmd: Seq<char>,
    args: Seq<Seq<char>>,
    input: Seq<char>,
) -> StepSpec {
    match sp.arg_pattern {
        ArgumentPattern::Register => if input.len() == 1 && spec_is_digit(input[0]) {
            if args.len() == 0 {
                StepSpec { cmd: cmd, args: seq![input], out: StepOutcome::Incomplete }
            } else {
                StepSpec {
                    cmd: Seq::empty(),
                    args: Seq::empty(),
                    out: StepOutcome::Complete { command: cmd, args: Some(seq![args[0] + input]) },
                }
            }
        } else {
            StepSpec {
                cmd: cmd,
                args: args,
                out: StepOutcome::Invalid(
                    "Register number must be digits, got '"@ + input + "'"@,
                ),
            }
        },
        _ => {
            if !spec_valid_arg(input, sp.arg_pattern) {
                StepSpec {
                    cmd: cmd,
                    args: args,
                    out: StepOutcome::Invalid(
                        "Invalid argument '"@ + input + "' for "@ + cmd,
                    ),
                }
            } else {
                let args2 = args.push(input);
                if spec_args_complete(args2, sp.arg_pattern) {
                    if sp.auto_execute is OnComplete {
                        StepSpec {
                            cmd: Seq::empty(),
                            args: Seq::empty(),
                            out: StepOutcome::Complete { command: cmd, args: Some(args2) },
                        }
                    } else {
                        StepSpec { cmd: cmd, args: args2, out: StepOutcome::Incomplete }
                    }
                } else {
                    StepSpec { cmd: cmd, args: args2, out: StepOutcome::Incomplete }
                }
            }
        },
    }
}

/// The full transition relation of `add_input`: one token against one
/// parser state.
pub open spec fn spec_step(
    reg: Seq<CommandSpec>,
    cmd: Seq<char>,
    args: Seq<Seq<char>>,
    input: Seq<char>,
) -> StepSpec {
    if cmd.len() == 0 {
        spec_start(reg, args, input)
    } else {
        match spec_lookup(reg, cmd) {
            Some(sp) => spec_add_arg(sp, cmd, args, input),
            None => spec_continue(reg, cmd, args, input),
        }
    }
}

/// The result of `force_complete`: whatever has accumulated is packaged,
/// even if the pattern would normally require more arguments.
pub open spec fn spec_force(cmd: Seq<char>, args: Seq<Seq<char>>) -> StepOutcome {
    if cmd.len() == 0 {
        StepOutcome::Invalid("No command to complete"@)
    } else {
        StepOutcome::Complete {
            command: cmd,
            args: if args.len() == 0 {
                None
            } else {
                Some(args)
            },
        }
    }
}

/// Unified command parser driven by the registry's specifications.
#[derive(Debug)]
pub struct CommandParser {
    registry: CommandRegistry,
    current_command: String,
    current_args: Vec<String>,
}

impl CommandParser {
    /// The committed command name (possibly still a prefix).
    pub closed spec fn cmd(&self) -> Seq<char> {
        self.current_command@
    }

    /// The collected argument tokens.
    pub closed spec fn args(&self) -> Seq<Seq<char>> {
        self.current_args.deep_view()
    }

    /// The registry driving this parser.
    pub closed spec fn reg(&self) -> Seq<CommandSpec> {
        self.registry@
    }

    /// The committed name is always empty, a registered command, or a
    /// prefix of at least one registered name.
    pub open spec fn wf(&self) -> bool {
        self.cmd().len() == 0 || spec_lookup(self.reg(), self.cmd()) is Some
            || spec_some_name_extends(self.reg(), self.cmd())
    }

    /// A new parser over the default registry, with no command started.
    /// The registry is exactly the built-in command table, so every
    /// lookup the parser's transitions make is determined here.
    pub fn new() -> (r: CommandParser)
        ensures
            r.cmd().len() == 0,
            r.args().len() == 0,
            r.wf(),
            is_command_table(r.reg()),
            cmd_is(r.reg(), "sin"@, ArgumentPattern::NoArg, AutoExecuteRule::Immediate),
            cmd_is(r.reg(), "cos"@, ArgumentPattern::NoArg, AutoExecuteRule::Immediate),
            cmd_is(r.reg(), "tan"@, ArgumentPattern::NoArg, AutoExecuteRule::Immediate),
            cmd_is(r.reg(), "asin"@, ArgumentPattern::NoArg, AutoExecuteRule::Immediate),
            cmd_is(r.reg(), "acos"@, ArgumentPattern::NoArg, AutoExecuteRule::Immediate),
            cmd_is(r.reg(), "atan"@, ArgumentPattern::NoArg, AutoExecuteRule::Immediate),
            cmd_is(r.reg(), "log"@, ArgumentPattern::NoArg, AutoExecuteRule::Immediate),
            cmd_is(r.reg(), "ln"@, ArgumentPattern::NoArg, AutoExecuteRule::Immediate),
            cmd_is(r.reg(), "exp"@, ArgumentPattern::NoArg, AutoExecuteRule::Immediate),
            cmd_is(r.reg(), "sqrt"@, ArgumentPattern::NoArg, AutoExecuteRule::Immediate),
            cmd_is(r.reg(), "inv"@, ArgumentPattern::NoArg, AutoExecuteRule::Immediate),
            cmd_is(r.reg(), "chs"@, ArgumentPattern::NoArg, AutoExecuteRule::Immediate),
            cmd_is(r.reg(), "enter"@, ArgumentPattern::NoArg, AutoExecuteRule::Immediate),
            cmd_is(r.reg(), "swap"@, ArgumentPattern::NoArg, AutoExecuteRule::Immediate),
            cmd_is(r.reg(), "clx"@, ArgumentPattern::NoArg, AutoExecuteRule::Immediate),
            cmd_is(r.reg(), "clr"@, ArgumentPattern::NoArg, AutoExecuteRule::Immediate),
            cmd_is(r.reg(), "+"@, ArgumentPattern::NoArg, AutoExecuteRule::Immediate),
            cmd_is(r.reg(), "-"@, ArgumentPattern::NoArg, AutoExecuteRule::Immediate),
            cmd_is(r.reg(), "*"@, ArgumentPattern::NoArg, AutoExecuteRule::Immediate),
            cmd_is(r.reg(), "/"@, ArgumentPattern::NoArg, AutoExecuteRule::Immediate),
            cmd_is(r.reg(), "^"@, ArgumentPattern::NoArg, AutoExecuteRule::Immediate),
            cmd_is(r.reg(), "!"@, ArgumentPattern::NoArg, AutoExecuteRule::Immediate),
            cmd_is(r.reg(), "fix"@, ArgumentPattern::SingleDigit, AutoExecuteRule::OnComplete),
            cmd_is(r.reg(), "sci"@, ArgumentPattern::SingleDigit, AutoExecuteRule::OnComplete),
            cmd_is(r.reg(), "eng"@, ArgumentPattern::SingleDigit, AutoExecuteRule::OnComplete),
            cmd_is(r.reg(), "sto"@, ArgumentPattern::Register, AutoExecuteRule::OnComplete),
            cmd_is(r.reg(), "rcl"@, ArgumentPattern::Register, AutoExecuteRule::OnComplete),
            cmd_is(r.reg(), "lbl"@, ArgumentPattern::Label, AutoExecuteRule::OnComplete),
            cmd_is(r.reg(), "gto"@, ArgumentPattern::Label, AutoExecuteRule::OnComplete),
            cmd_is(r.reg(), "xeq"@, ArgumentPattern::Alpha, AutoExecuteRule::OnComplete),
            cmd_is(r.reg(), "rtn"@, ArgumentPattern::NoArg, AutoExecuteRule::Immediate),
            cmd_is(r.reg(), "sst"@, ArgumentPattern::NoArg, AutoExecuteRule::Immediate),
            cmd_is(r.reg(), "bst"@, ArgumentPattern::NoArg, AutoExecuteRule::Immediate),
            cmd_is(r.reg(), "prgm"@, ArgumentPattern::NoArg, AutoExecuteRule::Immediate),
            cmd_is(r.reg(), "pi"@, ArgumentPattern::NoArg, AutoExecuteRule::Immediate),
            cmd_is(r.reg(), "eex"@, ArgumentPattern::NoArg, AutoExecuteRule::Immediate),
            cmd_is(r.reg(), "arc"@, ArgumentPattern::NoArg, AutoExecuteRule::Immediate),
            forall|n: Seq<char>| spec_lookup(r.reg(), n) is Some ==> is_builtin_name(n),
            forall|n: Seq<char>| is_builtin_name(n) ==> spec_lookup(r.reg(), n) is Some,
    {
        let r = CommandParser {
            registry: CommandRegistry::new(),
            current_command: String::new(),
            current_args: Vec::new(),
        };
        proof {
            lemma_table_facts(r.reg());
        }
        r
    }

    /// Clear the current parsing state.
    pub fn clear(&mut self)
        ensures
            final(self).cmd().len() == 0,
            final(self).args().len() == 0,
            final(self).reg() == old(self).reg(),
            final(self).wf(),
    {
        self.current_command = String::new();
        self.current_args = Vec::new();
    }

    /// Whether a command is currently being built.
    pub fn is_building(&self) -> (r: bool)
        ensures
            r == (self.cmd().len() > 0),
    {
        self.current_command.as_str().unicode_len() > 0
    }

    /// Access the command registry.
    pub fn registry(&self) -> (r: &CommandRegistry)
        ensures
            r@ == self.reg(),
    {
        &self.registry
    }

    /// Feed one token to the parser. The returned result and the new state
    /// are exactly those of `spec_step` on the old state.
    pub fn add_input(&mut self, input: &str) -> (r: ParseResult)
        ensures
            final(self).reg() == old(self).reg(),
            ({
                let st = spec_step(old(self).reg(), old(self).cmd(), old(self).args(), input@);
                &&& final(self).cmd() == st.cmd
                &&& final(self).args() == st.args
                &&& outcome_matches(r, st.out)
            }),
            old(self).wf() ==> final(self).wf(),
    {
        if self.current_command.as_str().unicode_len() == 0 {
            return self.start_command(input);
        }
        let (found, pat, auto) = match self.registry.get_spec(self.current_command.as_str()) {
            Some(sp) => (true, sp.arg_pattern, sp.auto_execute),
            None => (false, ArgumentPattern::NoArg, AutoExecuteRule::Immediate),
        };
        if found {
            self.add_argument(input, pat, auto)
        } else {
            self.continue_building_command(input)
        }
    }

    /// Start parsing a new command.
    fn start_command(&mut self, input: &str) -> (r: ParseResult)
        requires
            old(self).cmd().len() == 0,
        ensures
            final(self).reg() == old(self).reg(),
            ({
                let st = spec_start(old(self).reg(), old(self).args(), input@);
                &&& final(self).cmd() == st.cmd
                &&& final(self).args() == st.args
                &&& outcome_matches(r, st.out)
            }),
            old(self).wf() ==> final(self).wf(),
    {
        let input_lower = str_lower(input);
        let (found, no_arg) = match self.registry.get_spec(input_lower.as_str()) {
            Some(sp) => (true, matches!(sp.arg_pattern, ArgumentPattern::NoArg)),
            None => (false, false),
        };
        if found {
            if no_arg {
                // Command executes immediately - clear state and return complete
                self.current_args = Vec::new();
                return ParseResult::Complete { command: input_lower, args: None };
            }
            self.current_command = input_lower;
            self.current_args = Vec::new();
            return ParseResult::Incomplete;
        }
        if self.registry.some_name_extends(input_lower.as_str()) {
            self.current_command = input_lower;
            self.current_args = Vec::new();
            ParseResult::Incomplete
        } else {
            ParseResult::Invalid(String::from_str("Unknown command: ").concat(input))
        }
    }

    /// Continue building a command name.
    fn continue_building_command(&mut self, input: &str) -> (r: ParseResult)
        requires
            old(self).cmd().len() > 0,
            spec_lookup(old(self).reg(), old(self).cmd()) is None,
        ensures
            final(self).reg() == old(self).reg(),
            ({
                let st = spec_continue(old(self).reg(), old(self).cmd(), old(self).args(), input@);
                &&& final(self).cmd() == st.cmd
                &&& final(self).args() == st.args
                &&& outcome_matches(r, st.out)
            }),
            old(self).wf() ==> final(self).wf(),
    {
        let input_lower = str_lower(input);
        let new_command = self.current_command.clone().concat(input_lower.as_str());
        let (found, no_arg) = match self.registry.get_spec(new_command.as_str()) {
            Some(sp) => (true, matches!(sp.arg_pattern, ArgumentPattern::NoArg)),
            None => (false, false),
        };
        if found {
            if no_arg {
                // Command executes immediately - clear state and return complete
                self.clear();
                return ParseResult::Complete { command: new_command, args: None };
            }
            self.current_command = new_command;
            self.current_args = Vec::new();
            return ParseResult::Incomplete;
        }
        if self.registry.some_name_extends(new_command.as_str()) {
            self.current_command = new_command;
            self.current_args = Vec::new();
            ParseResult::Incomplete
        } else {
            ParseResult::Invalid(String::from_str("Unknown command: ").concat(
                new_command.as_str(),
            ))
        }
    }

    /// Add an argument to the committed command.
    fn add_argument(
        &mut self,
        arg: &str,
        pat: ArgumentPattern,
        auto: AutoExecuteRule,
    ) -> (r: ParseResult)
        requires
            old(self).cmd().len() > 0,
            ({
                match spec_lookup(old(self).reg(), old(self).cmd()) {
                    Some(sp) => sp.arg_pattern == pat && sp.auto_execute == auto,
                    None => false,
                }
            }),
        ensures
            final(self).reg() == old(self).reg(),
            ({
                let sp = spec_lookup(old(self).reg(), old(self).cmd()).unwrap();
                let st = spec_add_arg(sp, old(self).cmd(), old(self).args(), arg@);
                &&& final(self).cmd() == st.cmd
                &&& final(self).args() == st.args
                &&& outcome_matches(r, st.out)
            }),
            old(self).wf() ==> final(self).wf(),
    {
        match pat {
            ArgumentPattern::Register => {
                let ok = arg.unicode_len() == 1 && is_digit(arg.get_char(0));
                if !ok {
                    return ParseResult::Invalid(
                        String::from_str("Register number must be digits, got '").concat(
                            arg,
                        ).concat("'"),
                    );
                }
                if self.current_args.len() == 0 {
                    // First digit of register number: held, not yet complete
                    self.current_args.push(String::from_str(arg));
                    proof {
                        assert(self.current_args.deep_view() =~= seq![arg@]);
                    }
                    ParseResult::Incomplete
                } else {
                    // Second digit completes the two-digit register number
                    let full = self.current_args[0].clone().concat(arg);
                    let command = self.take_command();
                    self.current_args = Vec::new();
                    let mut args_out: Vec<String> = Vec::new();
                    args_out.push(full);
                    proof {
                        assert(args_out.deep_view() =~= seq![
                            old(self).args()[0] + arg@,
                        ]);
                    }
                    ParseResult::Complete { command, args: Some(args_out) }
                }
            },
            _ => {
                if !is_valid_argument_token(arg, &pat) {
                    return ParseResult::Invalid(
                        String::from_str("Invalid argument '").concat(arg).concat(
                            "' for ",
                        ).concat(self.current_command.as_str()),
                    );
                }
                self.current_args.push(String::from_str(arg));
                proof {
                    assert(self.current_args.deep_view() =~= old(self).args().push(arg@));
                }
                let complete = match pat {
                    ArgumentPattern::NoArg => true,
                    ArgumentPattern::Register => false,
                    _ => self.current_args.len() > 0,
                };
                if complete && matches!(auto, AutoExecuteRule::OnComplete) {
                    let command = self.take_command();
                    let args_out = self.take_args();
                    if args_out.len() == 0 {
                        ParseResult::Complete { command, args: None }
                    } else {
                        ParseResult::Complete { command, args: Some(args_out) }
                    }
                } else {
                    ParseResult::Incomplete
                }
            },
        }
    }

    /// Remove and return the committed command name, leaving it empty.
    fn take_command(&mut self) -> (r: String)
        ensures
            r@ == old(self).cmd(),
            final(self).cmd().len() == 0,
            final(self).args() == old(self).args(),
            final(self).reg() == old(self).reg(),
    {
        let r = self.current_command.clone();
        self.current_command = String::new();
        r
    }

    /// Remove and return the collected arguments, leaving them empty.
    fn take_args(&mut self) -> (r: Vec<String>)
        ensures
            r.deep_view() == old(self).args(),
            final(self).args().len() == 0,
            final(self).cmd() == old(self).cmd(),
            final(self).reg() == old(self).reg(),
    {
        let mut out: Vec<String> = Vec::new();
        core::mem::swap(&mut out, &mut self.current_args);
        out
    }

    /// Force completion of the current command: package whatever command
    /// and arguments have accumulated, even if the pattern would normally
    /// require more; fails if nothing was started.
    pub fn force_complete(&mut self) -> (r: ParseResult)
        ensures
            final(self).reg() == old(self).reg(),
            outcome_matches(r, spec_force(old(self).cmd(), old(self).args())),
            final(self).cmd().len() == 0,
            final(self).args().len() == 0,
            final(self).wf(),
    {
        if self.current_command.as_str().unicode_len() == 0 {
            self.current_args = Vec::new();
            return ParseResult::Invalid(String::from_str("No command to complete"));
        }
        let command = self.take_command();
        let args = self.take_args();
        if args.len() == 0 {
            ParseResult::Complete { command, args: None }
        } else {
            ParseResult::Complete { command, args: Some(args) }
        }
    }
}

/// The display form of a parser state: the committed command, then the
/// collected arguments; a register number still missing its second digit
/// shows a trailing underscore.
pub open spec fn spec_state_display(cmd: Seq<char>, args: Seq<Seq<char>>) -> Seq<char> {
    if cmd.len() == 0 {
        "CMD: []"@
    } else if args.len() == 0 {
        "CMD: ["@ + cmd + "]"@
    } else if (cmd == "sto"@ || cmd == "rcl"@) && args.len() == 1 && args[0].len() == 1 {
        "CMD: ["@ + cmd + " "@ + args[0] + "_]"@
    } else {
        "CMD: ["@ + cmd + " "@ + spec_join(args, " "@) + "]"@
    }
}

impl CommandParser {
    /// The current parsing state, rendered for the status line.
    pub fn get_current_state(&self) -> (r: String)
        ensures
            r@ == spec_state_display(self.cmd(), self.args()),
    {
        if self.current_command.as_str().unicode_len() == 0 {
            return String::from_str("CMD: []");
        }
        if self.current_args.len() == 0 {
            return String::from_str("CMD: [").concat(self.current_command.as_str()).concat("]");
        }
        let special = (str_eq(self.current_command.as_str(), "sto") || str_eq(
            self.current_command.as_str(),
            "rcl",
        )) && self.current_args.len() == 1 && self.current_args[0].as_str().unicode_len() == 1;
        if special {
            String::from_str("CMD: [").concat(self.current_command.as_str()).concat(" ").concat(
                self.current_args[0].as_str(),
            ).concat("_]")
        } else {
            let joined = join_with_spaces(&self.current_args);
            String::from_str("CMD: [").concat(self.current_command.as_str()).concat(" ").concat(
                joined.as_str(),
            ).concat("]")
        }
    }
}

/// Parser completeness monotonicity: feeding the letters of a registered
/// zero-argument command one at a time, starting from the empty state,
/// never produces a rejection partway — every proper prefix leaves the
/// parser waiting with that prefix committed — and the final letter
/// completes the command with no arguments. The command is assumed to be
/// written in lowercase (as every registered name is), and no strict
/// prefix of it may itself be a registered name.
pub proof fn lemma_zero_arg_command_feeds_to_completion(
    reg: Seq<CommandSpec>,
    c: Seq<char>,
    i: int,
)
    requires
        ({
            match spec_lookup(reg, c) {
                Some(sp) => sp.arg_pattern is NoArg,
                None => false,
            }
        }),
        spec_lower_seq(c) == c,
        forall|j: int| 1 <= j < c.len() ==> spec_lookup(reg, #[trigger] c.subrange(0, j)) is None,
        0 <= i < c.len(),
    ensures
        ({
            let st = spec_step(reg, c.subrange(0, i), Seq::empty(), seq![c[i]]);
            if i + 1 < c.len() {
                st.cmd == c.subrange(0, i + 1) && st.args.len() == 0 && st.out is Incomplete
            } else {
                st.out matches StepOutcome::Complete { command, args } && command == c
                    && args is None
            }
        }),
{
    let prefix = c.subrange(0, i);
    let input = seq![c[i]];
    assert(spec_lower_seq(input) =~= input) by {
        assert(spec_lower_seq(c)[i] == c[i]);
        assert(crate::text::spec_lower_char(c[i]) == c[i]);
    }
    assert(prefix + spec_lower_seq(input) =~= c.subrange(0, i + 1));
    crate::registry::lemma_lookup_some_contains(reg, c);
    if i + 1 < c.len() {
        assert(spec_lookup(reg, c.subrange(0, i + 1)) is None);
        assert(spec_some_name_extends(reg, c.subrange(0, i + 1))) by {
            let k = choose|k: int| 0 <= k < reg.len() && (#[trigger] reg[k].name@) == c;
            assert(c.subrange(0, i + 1).is_prefix_of(reg[k].name@));
        }
        if i == 0 {
            assert(spec_step(reg, prefix, Seq::empty(), input) == spec_start(
                reg,
                Seq::empty(),
                input,
            ));
        } else {
            assert(spec_lookup(reg, prefix) is None);
        }
    } else {
        assert(c.subrange(0, i + 1) =~= c);
        if i == 0 {
            assert(prefix.len() == 0);
        } else {
            assert(spec_lookup(reg, prefix) is None);
        }
    }
}

impl Default for CommandParser {
    /// A new parser over the default registry.
    fn default() -> (r: CommandParser)
        ensures
            r.cmd().len() == 0,
            r.args().len() == 0,
            r.wf(),
    {
        CommandParser::new()
    }
}

/// Whether `arg` satisfies the class predicate of `pattern`.
fn is_valid_argument_token(arg: &str, pattern: &ArgumentPattern) -> (r: bool)
    ensures
        r == spec_valid_arg(arg@, *pattern),
{
    match *pattern {
        ArgumentPattern::NoArg => false,
        ArgumentPattern::SingleDigit => arg.unicode_len() == 1 && is_digit(arg.get_char(0)),
        ArgumentPattern::Register => true,
        ArgumentPattern::Label => arg.unicode_len() == 1 && is_alnum(arg.get_char(0)),
        ArgumentPattern::Alpha => {
            let n = arg.unicode_len();
            if n == 0 {
                return false;
            }
            let mut i: usize = 0;
            while i < n
                invariant
                    i <= n == arg@.len(),
                    n > 0,
                    *pattern is Alpha,
                    forall|j: int|
                        0 <= j < i ==> spec_is_alnum(#[trigger] arg@[j]) || arg@[j] == '_',
                decreases n - i,
            {
                let c = arg.get_char(i);
                if !(is_alnum(c) || c == '_') {
                    proof {
                        assert(!(spec_is_alnum(arg@[i as int]) || arg@[i as int] == '_'));
                    }
                    return false;
                }
                i = i + 1;
            }
            true
        },
        ArgumentPattern::Custom => false,
    }
}

/// Whether an executable parse result reports exactly the spec outcome,
/// message included.
pub open spec fn outcome_matches(r: ParseResult, out: StepOutcome) -> bool {
    match out {
        StepOutcome::Incomplete => r is Incomplete,
        StepOutcome::Complete { command, args } => {
            &&& r matches ParseResult::Complete { command: rc, args: ra }
            &&& rc@ == command
            &&& (match (ra, args) {
                (Option::None, Option::None) => true,
                (Option::Some(rv), Option::Some(av)) => rv.deep_view() == av,
                _ => false,
            })
        },
        StepOutcome::Invalid(msg) => (r matches ParseResult::Invalid(m) && m@ == msg),
    }
}

} // verus!
