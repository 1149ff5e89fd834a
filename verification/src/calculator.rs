//! The calculator: routes each single keystroke to number entry or the
//! command parser, executes completed commands against the shared state,
//! and renders the composite display.
//!
//! A transcendental function or a power cannot be computed here: executing
//! one leaves a pending `MathRequest` that the host reads through
//! `pending_math` and answers through `apply_math_result`, which applies
//! the stack effect (including the drop for a power) under verification.

use crate::display::{DisplayFormatter, DisplayMode, spec_format_number, spec_mode_string,
    spec_truncated};
use crate::error::{CalculatorError, StackError};
use crate::execution::{ExecOutcome, MathRequest, NUM_STORAGE_REGISTERS};
use crate::input::{InputState, spec_handle_digit};
use crate::parser::{CommandParser, ParseResult, StepOutcome, spec_force, spec_step};
use crate::programming::{ProgrammingMode, add_instruction_ensures, spec_instruction_display,
    spec_line_prefix, spec_step_display, MAX_PROGRAM_LINES};
use crate::stack::{Stack, spec_lift};
use crate::text::{chars_to_string, str_eq};
use crate::value::Value;
use vstd::prelude::*;
use vstd::string::*;

verus! {

/// The full calculator state.
#[derive(Debug)]
pub struct HP41CCalculator {
    stack: Stack,
    input: InputState,
    programming: ProgrammingMode,
    display_formatter: DisplayFormatter,
    command_parser: CommandParser,
    storage_registers: Vec<Value>,
    show_flags: bool,
    pending_math: Option<MathRequest>,
}

impl HP41CCalculator {
    /// Every component is well-formed and the storage holds exactly its
    /// hundred registers.
    pub closed spec fn wf(&self) -> bool {
        &&& self.stack.wf()
        &&& self.input.wf()
        &&& self.programming.wf()
        &&& self.display_formatter.wf()
        &&& self.command_parser.wf()
        &&& self.storage_registers@.len() == NUM_STORAGE_REGISTERS
        &&& (forall|i: int|
            0 <= i < self.storage_registers@.len() ==> (#[trigger] self.storage_registers@[i]).wf())
    }

    /// The pending math request, if one is waiting for the host.
    pub closed spec fn spec_pending(&self) -> Option<MathRequest> {
        self.pending_math
    }

    /// A new calculator: zeroed stack and storage, FIX 4 display, empty
    /// input and parser over the built-in command table, no program, and
    /// nothing pending.
    pub fn new() -> (r: HP41CCalculator)
        ensures
            r.wf(),
            r.spec_pending() is None,
            r.spec_stack() == (Stack {
                x: Value { neg: false, mant: 0, exp: 0 },
                y: Value { neg: false, mant: 0, exp: 0 },
                z: Value { neg: false, mant: 0, exp: 0 },
                t: Value { neg: false, mant: 0, exp: 0 },
                lifted: false,
            }),
            r.spec_input() == crate::input::cleared(),
            r.spec_display() == (DisplayFormatter { mode: DisplayMode::Fix, digits: 4 }),
            r.spec_parser_cmd().len() == 0,
            r.spec_parser_args().len() == 0,
            crate::registry::is_command_table(r.spec_parser_reg()),
            r.spec_programming().program@.len() == 0,
            r.spec_programming().program_counter == 0,
            r.spec_programming().edit_position == 0,
            !r.spec_programming().is_programming,
            !r.spec_programming().is_running,
            r.spec_programming().subroutine_stack@.len() == 0,
            r.spec_programming().labels@.len() == 0,
            r.spec_programming().current_line == 1,
            r.spec_storage().len() == NUM_STORAGE_REGISTERS,
            forall|i: int|
                0 <= i < r.spec_storage().len() ==> #[trigger] r.spec_storage()[i] == (Value {
                    neg: false,
                    mant: 0,
                    exp: 0,
                }),
            !r.spec_show_flags(),
    {
        let mut storage_registers: Vec<Value> = Vec::new();
        let mut i: usize = 0;
        while i < NUM_STORAGE_REGISTERS
            invariant
                i <= NUM_STORAGE_REGISTERS,
                storage_registers@.len() == i,
                forall|j: int|
                    0 <= j < i ==> (#[trigger] storage_registers@[j]) == (Value {
                        neg: false,
                        mant: 0,
                        exp: 0,
                    }),
            decreases NUM_STORAGE_REGISTERS - i,
        {
            storage_registers.push(Value::zero());
            i = i + 1;
        }
        HP41CCalculator {
            stack: Stack::new(),
            input: InputState::new(),
            programming: ProgrammingMode::new(),
            display_formatter: DisplayFormatter::new(),
            command_parser: CommandParser::new(),
            storage_registers,
            show_flags: false,
            pending_math: None,
        }
    }

    /// What executing a completed command guarantees here: some dispatch
    /// outcome relates the old and new component states exactly as
    /// `dispatch_ensures` states; a finished command's message is
    /// returned as-is, a math request is stored as the pending request
    /// with `Ok(None)`, and an error comes back rendered, with the
    /// pending request untouched.
    pub open spec fn executed_ensures(
        &self,
        post: &HP41CCalculator,
        command: Seq<char>,
        args: Option<Seq<Seq<char>>>,
        r: Result<Option<String>, String>,
    ) -> bool {
        exists|er: Result<ExecOutcome, CalculatorError>|
            {
                &&& #[trigger] crate::execution::dispatch_ensures(
                    command,
                    args,
                    self.spec_stack(),
                    post.spec_stack(),
                    self.spec_input(),
                    post.spec_input(),
                    self.spec_programming(),
                    post.spec_programming(),
                    self.spec_display(),
                    post.spec_display(),
                    self.spec_storage(),
                    post.spec_storage(),
                    er,
                )
                &&& match er {
                    Ok(ExecOutcome::Msg(m)) => r == Ok::<Option<String>, String>(m)
                        && post.spec_pending() == self.spec_pending(),
                    Ok(ExecOutcome::NeedMath(q)) => r == Ok::<Option<String>, String>(None)
                        && post.spec_pending() == Some(q),
                    Err(e) => (r matches Err(msg) && msg@ == e.spec_message())
                        && post.spec_pending() == self.spec_pending(),
                }
            }
    }

    /// The execution relation reads only the components and the pending
    /// request, so any pre-state that agrees on those supports it too.
    pub proof fn lemma_executed_pre_transfer(
        pre1: &HP41CCalculator,
        pre2: &HP41CCalculator,
        post: &HP41CCalculator,
        command: Seq<char>,
        args: Option<Seq<Seq<char>>>,
        r: Result<Option<String>, String>,
    )
        requires
            pre1.executed_ensures(post, command, args, r),
            pre2.spec_stack() == pre1.spec_stack(),
            pre2.spec_input() == pre1.spec_input(),
            pre2.spec_programming() == pre1.spec_programming(),
            pre2.spec_display() == pre1.spec_display(),
            pre2.spec_storage() == pre1.spec_storage(),
            pre2.spec_pending() == pre1.spec_pending(),
        ensures
            pre2.executed_ensures(post, command, args, r),
    {
        let er = choose|er: Result<ExecOutcome, CalculatorError>|
            {
                &&& #[trigger] crate::execution::dispatch_ensures(
                    command,
                    args,
                    pre1.spec_stack(),
                    post.spec_stack(),
                    pre1.spec_input(),
                    post.spec_input(),
                    pre1.spec_programming(),
                    post.spec_programming(),
                    pre1.spec_display(),
                    post.spec_display(),
                    pre1.spec_storage(),
                    post.spec_storage(),
                    er,
                )
                &&& match er {
                    Ok(ExecOutcome::Msg(m)) => r == Ok::<Option<String>, String>(m)
                        && post.spec_pending() == pre1.spec_pending(),
                    Ok(ExecOutcome::NeedMath(q)) => r == Ok::<Option<String>, String>(None)
                        && post.spec_pending() == Some(q),
                    Err(e) => (r matches Err(msg) && msg@ == e.spec_message())
                        && post.spec_pending() == pre1.spec_pending(),
                }
            };
        assert(crate::execution::dispatch_ensures(
            command,
            args,
            pre2.spec_stack(),
            post.spec_stack(),
            pre2.spec_input(),
            post.spec_input(),
            pre2.spec_programming(),
            post.spec_programming(),
            pre2.spec_display(),
            post.spec_display(),
            pre2.spec_storage(),
            post.spec_storage(),
            er,
        ));
    }

    /// Extract the dispatch outcome that `executed_ensures` promises.
    pub proof fn lemma_executed_witness(
        pre: &HP41CCalculator,
        post: &HP41CCalculator,
        command: Seq<char>,
        args: Option<Seq<Seq<char>>>,
        r: Result<Option<String>, String>,
    ) -> (er: Result<ExecOutcome, CalculatorError>)
        requires
            pre.executed_ensures(post, command, args, r),
        ensures
            crate::execution::dispatch_ensures(
                command,
                args,
                pre.spec_stack(),
                post.spec_stack(),
                pre.spec_input(),
                post.spec_input(),
                pre.spec_programming(),
                post.spec_programming(),
                pre.spec_display(),
                post.spec_display(),
                pre.spec_storage(),
                post.spec_storage(),
                er,
            ),
            match er {
                Ok(ExecOutcome::Msg(m)) => r == Ok::<Option<String>, String>(m)
                    && post.spec_pending() == pre.spec_pending(),
                Ok(ExecOutcome::NeedMath(q)) => r == Ok::<Option<String>, String>(None)
                    && post.spec_pending() == Some(q),
                Err(e) => (r matches Err(msg) && msg@ == e.spec_message()) && post.spec_pending()
                    == pre.spec_pending(),
            },
    {
        choose|er: Result<ExecOutcome, CalculatorError>|
            {
                &&& #[trigger] crate::execution::dispatch_ensures(
                    command,
                    args,
                    pre.spec_stack(),
                    post.spec_stack(),
                    pre.spec_input(),
                    post.spec_input(),
                    pre.spec_programming(),
                    post.spec_programming(),
                    pre.spec_display(),
                    post.spec_display(),
                    pre.spec_storage(),
                    post.spec_storage(),
                    er,
                )
                &&& match er {
                    Ok(ExecOutcome::Msg(m)) => r == Ok::<Option<String>, String>(m)
                        && post.spec_pending() == pre.spec_pending(),
                    Ok(ExecOutcome::NeedMath(q)) => r == Ok::<Option<String>, String>(None)
                        && post.spec_pending() == Some(q),
                    Err(e) => (r matches Err(msg) && msg@ == e.spec_message())
                        && post.spec_pending() == pre.spec_pending(),
                }
            }
    }

    /// Execute a command with the given arguments: the named command's
    /// dispatch contract relates the old and new state; a failure comes
    /// back as its rendered message, and a transcendental request is
    /// stored as pending and must be answered before its effect lands.
    pub fn execute_command(&mut self, command: &str, args: Option<Vec<String>>) -> (r: Result<
        Option<String>,
        String,
    >)
        requires
            old(self).wf(),
        ensures
            final(self).wf(),
            old(self).executed_ensures(final(self), command@, args.deep_view(), r),
            final(self).spec_parser_cmd() == old(self).spec_parser_cmd(),
            final(self).spec_parser_args() == old(self).spec_parser_args(),
            final(self).spec_parser_reg() == old(self).spec_parser_reg(),
            final(self).spec_show_flags() == old(self).spec_show_flags(),
            old(self).spec_pending() is None && final(self).spec_pending() is Some ==> r == Ok::<
                Option<String>,
                String,
            >(None),
    {
        let ghost args_v = args.deep_view();
        let result = crate::execution::execute_command(
            command,
            args,
            &mut self.stack,
            &mut self.input,
            &mut self.programming,
            &mut self.display_formatter,
            &mut self.storage_registers,
        );
        let ghost er = result;
        let r_out: Result<Option<String>, String> = match result {
            Ok(ExecOutcome::Msg(m)) => Ok(m),
            Ok(ExecOutcome::NeedMath(req)) => {
                self.pending_math = Some(req);
                Ok(None)
            },
            Err(e) => Err(e.message()),
        };
        proof {
            assert(crate::execution::dispatch_ensures(
                command@,
                args_v,
                old(self).spec_stack(),
                self.spec_stack(),
                old(self).spec_input(),
                self.spec_input(),
                old(self).spec_programming(),
                self.spec_programming(),
                old(self).spec_display(),
                self.spec_display(),
                old(self).spec_storage(),
                self.spec_storage(),
                er,
            ));
        }
        r_out
    }

    /// The pending math request the host must evaluate, if any.
    pub fn pending_math(&self) -> (r: Option<MathRequest>)
        ensures
            r == self.spec_pending(),
    {
        self.pending_math
    }

    /// Apply the host's answer to the pending math request: a well-formed
    /// value lands in X (with the binary drop for a power) and sets the
    /// lift flag; an error, or a malformed value, leaves the stack
    /// untouched and reports the failure. The pending request is consumed
    /// either way.
    pub fn apply_math_result(&mut self, result: Result<Value, StackError>) -> (r: Result<
        Option<String>,
        String,
    >)
        requires
            old(self).wf(),
        ensures
            final(self).wf(),
            final(self).spec_pending() is None,
            old(self).spec_pending() is None ==> (r is Err && final(self).spec_stack() == old(self).spec_stack() && final(self).spec_input() == old(self).spec_input()),
            old(self).spec_pending() is Some ==> match result {
                Ok(v) => if !v.wf() {
                    r is Err && final(self).spec_stack() == old(self).spec_stack() && final(self).spec_input() == old(self).spec_input()
                } else if old(self).spec_pending().unwrap() is Unary {
                    r == Ok::<Option<String>, String>(None) && final(self).spec_stack() == (Stack {
                        x: v,
                        lifted: true,
                        ..old(self).spec_stack()
                    }) && final(self).spec_input() == crate::input::cleared()
                } else {
                    r == Ok::<Option<String>, String>(None) && final(self).spec_stack()
                        == crate::stack::spec_drop(old(self).spec_stack(), v) && final(self).spec_input() == crate::input::cleared()
                },
                Err(e) => (r matches Err(m) && m@ == CalculatorError::Stack(e).spec_message())
                    && final(self).spec_stack() == old(self).spec_stack() && final(self).spec_input() == old(self).spec_input(),
            },
    {
        let pending = match self.pending_math {
            Some(p) => p,
            None => {
                self.pending_math = None;
                return Err(String::from_str("No pending math request"));
            },
        };
        self.pending_math = None;
        match result {
            Ok(v) => {
                if !v.check_wf() {
                    return Err(
                        CalculatorError::Stack(
                            StackError::MathError(String::from_str("Invalid calculation")),
                        ).message(),
                    );
                }
                match pending {
                    MathRequest::Unary(_, _) => {
                        self.stack.set_x(v);
                        self.stack.set_lift_flag(true);
                        self.input.clear();
                        Ok(None)
                    },
                    MathRequest::Power(_, _) => {
                        match self.stack.finish_binary(Some(v)) {
                            Ok(_) => {
                                self.input.clear();
                                Ok(None)
                            },
                            Err(e) => Err(CalculatorError::Stack(e).message()),
                        }
                    },
                }
            },
            Err(e) => Err(CalculatorError::Stack(e).message()),
        }
    }

    /// What one digit (or dot) keystroke does in programming mode with no
    /// command building: it is recorded directly as a program step, with
    /// everything else untouched.
    pub open spec fn digit_recorded_ensures(
        &self,
        post: &HP41CCalculator,
        key: Seq<char>,
        r: Result<Option<String>, String>,
    ) -> bool {
        &&& r == Ok::<Option<String>, String>(None)
        &&& add_instruction_ensures(
            self.spec_programming(),
            post.spec_programming(),
            key,
            Seq::empty(),
            self.spec_programming().program@.len() < MAX_PROGRAM_LINES,
        )
        &&& post.spec_stack() == self.spec_stack()
        &&& post.spec_input() == self.spec_input()
        &&& post.spec_display() == self.spec_display()
        &&& post.spec_storage() == self.spec_storage()
        &&& post.spec_pending() == self.spec_pending()
        &&& post.spec_parser_cmd() == self.spec_parser_cmd()
    }

    /// What one digit (or dot) keystroke does outside programming mode
    /// and outside command building: the stack lifts first when a new
    /// entry begins with the lift flag set, the keystroke feeds number
    /// entry, and an accepted value replaces X and clears the lift flag.
    pub open spec fn digit_entry_ensures(
        &self,
        post: &HP41CCalculator,
        key: char,
        r: Result<Option<String>, String>,
    ) -> bool {
        let lifted = !self.spec_input().entering && self.spec_stack().lifted;
        let s1 = if lifted {
            spec_lift(self.spec_stack())
        } else {
            self.spec_stack()
        };
        let step = spec_handle_digit(self.spec_input(), key);
        &&& post.spec_input() == step.0
        &&& match step.1 {
            Ok(Some(val)) => post.spec_stack() == (Stack { x: val, lifted: false, ..s1 }) && r
                == Ok::<Option<String>, String>(None),
            Ok(None) => post.spec_stack() == s1 && r == Ok::<Option<String>, String>(None),
            Err(e) => post.spec_stack() == s1 && (r matches Err(m) && m@ == CalculatorError::Input(
                e,
            ).spec_message()),
        }
        &&& post.spec_storage() == self.spec_storage()
        &&& post.spec_display() == self.spec_display()
    }

    /// Process a single keystroke: mode toggles and backspace first, then
    /// digits to number entry (or as command arguments, or recorded as
    /// program steps), and everything else through the command parser.
    pub fn process_input(&mut self, key: &str) -> (r: Result<Option<String>, String>)
        requires
            old(self).wf(),
        ensures
            final(self).wf(),
            key@ == ":"@ ==> final(self).spec_programming().is_programming == !old(self).spec_programming().is_programming && (r matches Ok(m) && m is Some),
            key@ == "F"@ ==> r == Ok::<Option<String>, String>(None) && final(self).spec_show_flags()
                == !old(self).spec_show_flags() && final(self).spec_stack() == old(self).spec_stack(),
            (key@ == "."@ || key@ == "0"@ || key@ == "1"@ || key@ == "2"@ || key@ == "3"@ || key@
                == "4"@ || key@ == "5"@ || key@ == "6"@ || key@ == "7"@ || key@ == "8"@ || key@
                == "9"@) && !old(self).spec_programming().is_programming && old(self).spec_parser_cmd().len() == 0 ==> old(self).digit_entry_ensures(
                final(self),
                key@[0],
                r,
            ),
            key@ == "\u{8}"@ || key@ == "\u{7f}"@ ==> old(self).backspace_ensures(final(self), r),
            (key@ == "."@ || key@ == "0"@ || key@ == "1"@ || key@ == "2"@ || key@ == "3"@ || key@
                == "4"@ || key@ == "5"@ || key@ == "6"@ || key@ == "7"@ || key@ == "8"@ || key@
                == "9"@) && old(self).spec_parser_cmd().len() > 0 ==> old(self).command_token_ensures(final(self), key@, r),
            (key@ == "."@ || key@ == "0"@ || key@ == "1"@ || key@ == "2"@ || key@ == "3"@ || key@
                == "4"@ || key@ == "5"@ || key@ == "6"@ || key@ == "7"@ || key@ == "8"@ || key@
                == "9"@) && old(self).spec_programming().is_programming && old(self).spec_parser_cmd().len() == 0 ==> old(self).digit_recorded_ensures(
                final(self),
                key@,
                r,
            ),
            !(key@ == ":"@ || key@ == "F"@ || key@ == "\u{8}"@ || key@ == "\u{7f}"@ || key@ == "."@
                || key@ == "0"@ || key@ == "1"@ || key@ == "2"@ || key@ == "3"@ || key@ == "4"@
                || key@ == "5"@ || key@ == "6"@ || key@ == "7"@ || key@ == "8"@ || key@ == "9"@)
                ==> old(self).command_token_ensures(final(self), key@, r),
    {
        proof {
            reveal_strlit(":");
            reveal_strlit("F");
            reveal_strlit("\u{8}");
            reveal_strlit("\u{7f}");
            reveal_strlit(".");
            reveal_strlit("0");
            reveal_strlit("1");
            reveal_strlit("2");
            reveal_strlit("3");
            reveal_strlit("4");
            reveal_strlit("5");
            reveal_strlit("6");
            reveal_strlit("7");
            reveal_strlit("8");
            reveal_strlit("9");
            // Pin each literal's characters so distinct names are provably distinct.
            assert((":"@).len() == 1 && (":"@)[0] == ':');
            assert(("F"@).len() == 1 && ("F"@)[0] == 'F');
            assert(("."@).len() == 1 && ("."@)[0] == '.');
            assert(("0"@).len() == 1 && ("0"@)[0] == '0');
            assert(("1"@).len() == 1 && ("1"@)[0] == '1');
            assert(("2"@).len() == 1 && ("2"@)[0] == '2');
            assert(("3"@).len() == 1 && ("3"@)[0] == '3');
            assert(("4"@).len() == 1 && ("4"@)[0] == '4');
            assert(("5"@).len() == 1 && ("5"@)[0] == '5');
            assert(("6"@).len() == 1 && ("6"@)[0] == '6');
            assert(("7"@).len() == 1 && ("7"@)[0] == '7');
            assert(("8"@).len() == 1 && ("8"@)[0] == '8');
            assert(("9"@).len() == 1 && ("9"@)[0] == '9');
            assert(("\u{8}"@).len() == 1 && ("\u{8}"@)[0] == '\u{8}');
            assert(("\u{7f}"@).len() == 1 && ("\u{7f}"@)[0] == '\u{7f}');
        }
        if str_eq(key, ":") {
            self.toggle_programming_mode()
        } else if str_eq(key, "F") {
            self.toggle_flags();
            Ok(None)
        } else if str_eq(key, "\u{8}") || str_eq(key, "\u{7f}") {
            self.handle_backspace()
        } else if str_eq(key, ".") || str_eq(key, "0") || str_eq(key, "1") || str_eq(key, "2")
            || str_eq(key, "3") || str_eq(key, "4") || str_eq(key, "5") || str_eq(key, "6")
            || str_eq(key, "7") || str_eq(key, "8") || str_eq(key, "9") {
            self.handle_digit(key)
        } else {
            self.handle_command_input(key)
        }
    }

    /// Toggle programming mode, reporting the new state.
    fn toggle_programming_mode(&mut self) -> (r: Result<Option<String>, String>)
        requires
            old(self).wf(),
        ensures
            final(self).wf(),
            final(self).spec_programming().is_programming == !old(self).spec_programming().is_programming,
            r matches Ok(m) && m is Some,
    {
        let was_on = self.programming.is_programming;
        self.programming.toggle_programming_mode();
        if was_on {
            Ok(Some(String::from_str("Programming mode OFF")))
        } else {
            Ok(Some(String::from_str("Programming mode ON")))
        }
    }

    /// Toggle the flag display.
    fn toggle_flags(&mut self)
        requires
            old(self).wf(),
        ensures
            final(self).wf(),
            *final(self) == (HP41CCalculator { show_flags: !old(self).show_flags, ..*old(self) }),
    {
        self.show_flags = !self.show_flags;
    }

    /// What one backspace does: a command being built is cleared; during
    /// number entry one character is undone and the reparsed value put in
    /// X; otherwise nothing changes.
    pub open spec fn backspace_ensures(
        &self,
        post: &HP41CCalculator,
        r: Result<Option<String>, String>,
    ) -> bool {
        &&& r == Ok::<Option<String>, String>(None)
        &&& (self.spec_parser_cmd().len() > 0 ==> post.spec_parser_cmd().len() == 0
            && post.spec_stack() == self.spec_stack() && post.spec_input() == self.spec_input())
        &&& (self.spec_parser_cmd().len() == 0 && self.spec_input().entering ==> ({
            let (v2, res) = crate::input::spec_backspace(self.spec_input());
            &&& post.spec_input() == v2
            &&& match res {
                Some(val) => post.spec_stack() == (Stack { x: val, ..self.spec_stack() }),
                None => post.spec_stack() == self.spec_stack(),
            }
        }))
        &&& (self.spec_parser_cmd().len() == 0 && !self.spec_input().entering ==> post.spec_stack()
            == self.spec_stack() && post.spec_input() == self.spec_input())
    }

    /// Backspace: clear a command being built, else undo one character of
    /// number entry and put the reparsed value in X.
    fn handle_backspace(&mut self) -> (r: Result<Option<String>, String>)
        requires
            old(self).wf(),
        ensures
            final(self).wf(),
            old(self).backspace_ensures(final(self), r),
    {
        if self.command_parser.is_building() {
            self.command_parser.clear();
        } else if self.input.is_entering() {
            match self.input.handle_backspace() {
                Some(value) => {
                    self.stack.set_x(value);
                },
                None => {},
            }
        }
        Ok(None)
    }

    /// A digit or dot keystroke: recorded as a program step in
    /// programming mode, fed to the parser as an argument while a command
    /// is building, and otherwise entered into the number (lifting the
    /// stack first when the flag asks for it).
    fn handle_digit(&mut self, key: &str) -> (r: Result<Option<String>, String>)
        requires
            old(self).wf(),
            key@.len() == 1,
        ensures
            final(self).wf(),
            !old(self).spec_programming().is_programming && old(self).spec_parser_cmd().len() == 0
                ==> old(self).digit_entry_ensures(final(self), key@[0], r),
            old(self).spec_programming().is_programming && old(self).spec_parser_cmd().len() == 0
                ==> old(self).digit_recorded_ensures(final(self), key@, r),
            old(self).spec_parser_cmd().len() > 0 ==> old(self).command_token_ensures(
                final(self),
                key@,
                r,
            ),
    {
        if self.programming.is_programming && !self.command_parser.is_building() {
            self.programming.add_instruction(key, None, key);
            Ok(None)
        } else if self.command_parser.is_building() {
            // Digit might be an argument to a command
            self.handle_command_input(key)
        } else {
            // Regular number entry
            if !self.input.is_entering() && self.stack.should_lift() {
                self.stack.lift();
            }
            let ch = key.get_char(0);
            match self.input.handle_digit(ch) {
                Ok(Some(value)) => {
                    self.stack.set_x(value);
                    self.stack.set_lift_flag(false);
                    Ok(None)
                },
                Ok(None) => Ok(None),
                Err(e) => Err(CalculatorError::Input(e).message()),
            }
        }
    }

    /// What nothing-but-the-parser-state changing looks like between two
    /// calculator states.
    pub open spec fn only_parser_changed(&self, post: &HP41CCalculator) -> bool {
        &&& post.spec_stack() == self.spec_stack()
        &&& post.spec_input() == self.spec_input()
        &&& post.spec_programming() == self.spec_programming()
        &&& post.spec_display() == self.spec_display()
        &&& post.spec_storage() == self.spec_storage()
        &&& post.spec_pending() == self.spec_pending()
    }

    /// What one token does through the command path: space and enter
    /// force completion of a pending command (enter performs the stack
    /// ENTER operation when none is pending); any other token steps the
    /// parser — a completed command executes per `executed_ensures`, a
    /// rejected token reports its message with nothing changed, and an
    /// incomplete one only advances the parser state.
    pub open spec fn command_token_ensures(
        &self,
        post: &HP41CCalculator,
        token: Seq<char>,
        r: Result<Option<String>, String>,
    ) -> bool {
        if token == " "@ {
            if self.spec_parser_cmd().len() == 0 {
                r == Ok::<Option<String>, String>(None) && self.only_parser_changed(post)
                    && post.spec_parser_cmd() == self.spec_parser_cmd()
            } else {
                match spec_force(self.spec_parser_cmd(), self.spec_parser_args()) {
                    StepOutcome::Complete { command: c, args: a } => self.executed_ensures(
                        post,
                        c,
                        a,
                        r,
                    ) && post.spec_parser_cmd().len() == 0,
                    StepOutcome::Invalid(m) => (r matches Err(msg) && msg@ == m),
                    StepOutcome::Incomplete => true,
                }
            }
        } else if token == "enter"@ {
            if self.spec_parser_cmd().len() == 0 {
                self.executed_ensures(post, "enter"@, None, r)
            } else {
                match spec_force(self.spec_parser_cmd(), self.spec_parser_args()) {
                    StepOutcome::Complete { command: c, args: a } => self.executed_ensures(
                        post,
                        c,
                        a,
                        r,
                    ) && post.spec_parser_cmd().len() == 0,
                    StepOutcome::Invalid(m) => (r matches Err(msg) && msg@ == m),
                    StepOutcome::Incomplete => true,
                }
            }
        } else {
            let st = spec_step(
                self.spec_parser_reg(),
                self.spec_parser_cmd(),
                self.spec_parser_args(),
                token,
            );
            match st.out {
                StepOutcome::Incomplete => r == Ok::<Option<String>, String>(None)
                    && self.only_parser_changed(post) && post.spec_parser_cmd() == st.cmd
                    && post.spec_parser_args() == st.args,
                StepOutcome::Invalid(m) => (r matches Err(msg) && msg@ == m)
                    && self.only_parser_changed(post),
                StepOutcome::Complete { command: c, args: a } => self.executed_ensures(
                    post,
                    c,
                    a,
                    r,
                ) && post.spec_parser_cmd() == st.cmd,
            }
        }
    }

    /// A non-digit token: space and enter force completion of a pending
    /// command (enter performs the stack ENTER when none is pending);
    /// anything else feeds the parser and executes on completion. A token
    /// the parser rejects comes back as that rejection with nothing else
    /// changed; one that keeps building changes only the parser state.
    fn handle_command_input(&mut self, token: &str) -> (r: Result<Option<String>, String>)
        requires
            old(self).wf(),
        ensures
            final(self).wf(),
            old(self).command_token_ensures(final(self), token@, r),
    {
        proof {
            reveal_strlit(" ");
            reveal_strlit("enter");
        }
        if str_eq(token, " ") {
            // Space forces manual completion or acts as argument separator
            if self.command_parser.is_building() {
                match self.command_parser.force_complete() {
                    ParseResult::Complete { command, args } => {
                        let ghost mid = *self;
                        let ghost a = args.deep_view();
                        let res = self.execute_command(command.as_str(), args);
                        proof {
                            HP41CCalculator::lemma_executed_pre_transfer(
                                &mid,
                                old(self),
                                self,
                                command@,
                                a,
                                res,
                            );
                        }
                        res
                    },
                    ParseResult::Invalid(msg) => Err(msg),
                    ParseResult::Incomplete => Ok(None),
                }
            } else {
                Ok(None)  // Space with no command does nothing
            }
        } else if str_eq(token, "enter") {
            // Enter can either complete a command or do ENTER operation
            if self.command_parser.is_building() {
                match self.command_parser.force_complete() {
                    ParseResult::Complete { command, args } => {
                        let ghost mid = *self;
                        let ghost a = args.deep_view();
                        let res = self.execute_command(command.as_str(), args);
                        proof {
                            HP41CCalculator::lemma_executed_pre_transfer(
                                &mid,
                                old(self),
                                self,
                                command@,
                                a,
                                res,
                            );
                        }
                        res
                    },
                    ParseResult::Invalid(msg) => Err(msg),
                    ParseResult::Incomplete => Ok(None),
                }
            } else {
                // No command building, do regular ENTER
                self.execute_command("enter", None)
            }
        } else {
            match self.command_parser.add_input(token) {
                ParseResult::Complete { command, args } => {
                    let ghost mid = *self;
                    let ghost a = args.deep_view();
                    let res = self.execute_command(command.as_str(), args);
                    proof {
                        HP41CCalculator::lemma_executed_pre_transfer(
                            &mid,
                            old(self),
                            self,
                            command@,
                            a,
                            res,
                        );
                    }
                    res
                },
                ParseResult::Invalid(msg) => Err(msg),
                ParseResult::Incomplete => Ok(None),  // Keep building
            }
        }
    }

    /// A register row of the display: the value rendered in the current
    /// mode, cut to the display width.
    pub open spec fn spec_register_row(&self, v: Value) -> Seq<char> {
        spec_truncated(
            spec_format_number(self.spec_display().mode, self.spec_display().digits as int, v),
            35,
        )
    }

    /// The status line: the parser state, the entry/EEX/lift flags when
    /// enabled, the display mode, and the programming indicator with the
    /// next line number.
    pub open spec fn spec_status_line(&self) -> Seq<char> {
        crate::parser::spec_state_display(self.spec_parser_cmd(), self.spec_parser_args()) + (
        if self.spec_show_flags() {
            (if self.spec_input().entering {
                " EN:1"@
            } else {
                " EN:0"@
            }) + (if self.spec_input().eexm {
                " EEX:1"@
            } else {
                " EEX:0"@
            }) + (if self.spec_stack().lifted {
                " SL:1"@
            } else {
                " SL:0"@
            })
        } else {
            Seq::empty()
        }) + " "@ + spec_mode_string(self.spec_display()) + (
        if self.spec_programming().is_programming {
            " PRGM L"@ + spec_line_prefix(self.spec_programming().current_line as int)
        } else {
            Seq::empty()
        })
    }

    /// The program line: the step under the active cursor, cursor-marked
    /// while programming, blank with no program loaded.
    pub open spec fn spec_program_line(&self) -> Seq<char> {
        if self.spec_programming().is_programming {
            ">"@ + spec_step_display(self.spec_programming())
        } else if self.spec_programming().program@.len() > 0 {
            " "@ + spec_step_display(self.spec_programming())
        } else {
            Seq::empty()
        }
    }

    /// The whole display snapshot: four register rows (X shows the entry
    /// in progress), the status line, the program line, and two
    /// command-reference lines.
    pub open spec fn spec_display_snapshot(&self) -> Seq<char> {
        let x_row = if self.spec_input().entering {
            crate::input::spec_entry_display(self.spec_input())
        } else {
            self.spec_register_row(self.spec_stack().x)
        };
        "T: "@ + spec_padded(self.spec_register_row(self.spec_stack().t), 35) + "\n"@ + "Z: "@
            + spec_padded(self.spec_register_row(self.spec_stack().z), 35) + "\n"@ + "Y: "@
            + spec_padded(self.spec_register_row(self.spec_stack().y), 35) + "\n"@ + "X: "@
            + spec_padded(x_row, 35) + "\n"@ + self.spec_status_line() + "\n"@
            + self.spec_program_line() + "\n"@
            + "sin cos tan asin acos atan log ln exp sqrt"@ + "\n"@ + (
        if self.spec_show_flags() {
            "pi inv arc  clx clr chs  +/-*^ !  : lbl gto xeq sto rcl  F"@
        } else {
            "pi inv arc  clx clr chs  +/-*^ !  : fix sci eng sto rcl  F"@
        })
    }

    /// The multi-line display: the four stack registers (X shows the
    /// entry in progress), a status line, the program line, and two
    /// command-reference lines.
    pub fn get_display(&self) -> (r: String)
        requires
            self.wf(),
        ensures
            r@ == self.spec_display_snapshot(),
    {
        let mut lines = String::new();
        // Stack display (4 lines)
        let t_row = self.display_formatter.format_number(self.stack.get_t(), 35);
        let z_row = self.display_formatter.format_number(self.stack.get_z(), 35);
        let y_row = self.display_formatter.format_number(self.stack.get_y(), 35);
        let x_row = if self.input.is_entering() {
            self.input.get_display_string()
        } else {
            self.display_formatter.format_number(self.stack.get_x(), 35)
        };
        lines.append("T: ");
        lines.append(pad_to(&t_row, 35).as_str());
        lines.append("\n");
        lines.append("Z: ");
        lines.append(pad_to(&z_row, 35).as_str());
        lines.append("\n");
        lines.append("Y: ");
        lines.append(pad_to(&y_row, 35).as_str());
        lines.append("\n");
        lines.append("X: ");
        lines.append(pad_to(&x_row, 35).as_str());
        lines.append("\n");
        // Status line
        lines.append(self.build_status_line().as_str());
        lines.append("\n");
        // Program line
        lines.append(self.build_program_line().as_str());
        lines.append("\n");
        // Command reference (2 lines)
        lines.append("sin cos tan asin acos atan log ln exp sqrt");
        lines.append("\n");
        if self.show_flags {
            lines.append("pi inv arc  clx clr chs  +/-*^ !  : lbl gto xeq sto rcl  F");
        } else {
            lines.append("pi inv arc  clx clr chs  +/-*^ !  : fix sci eng sto rcl  F");
        }
        lines
    }

    /// The status line: parser state, optional flags, display mode, and
    /// the programming indicator.
    fn build_status_line(&self) -> (r: String)
        requires
            self.wf(),
        ensures
            r@ == self.spec_status_line(),
    {
        let mut parts = self.command_parser.get_current_state();
        if self.show_flags {
            parts.append(if self.input.is_entering() {
                " EN:1"
            } else {
                " EN:0"
            });
            parts.append(if self.input.is_eex_mode() {
                " EEX:1"
            } else {
                " EEX:0"
            });
            parts.append(if self.stack.should_lift() {
                " SL:1"
            } else {
                " SL:0"
            });
        }
        parts.append(" ");
        parts.append(self.display_formatter.get_mode_string().as_str());
        if self.programming.is_programming {
            parts.append(" PRGM L");
            let line = crate::programming::line_prefix(self.programming.current_line);
            parts.append(line.as_str());
        }
        parts
    }

    /// The program line: the instruction under the active cursor, or an
    /// end marker, prefixed with the edit cursor when programming.
    fn build_program_line(&self) -> (r: String)
        requires
            self.wf(),
        ensures
            r@ == self.spec_program_line(),
    {
        if self.programming.is_programming {
            let step = self.programming.get_current_step_display();
            String::from_str(">").concat(step.as_str())
        } else if self.programming.program.len() > 0 {
            let step = self.programming.get_current_step_display();
            String::from_str(" ").concat(step.as_str())
        } else {
            String::new()
        }
    }

    // === Accessors used by the host and by tests ===

    /// A copy of the four stack registers in X, Y, Z, T order.
    pub fn test_get_stack(&self) -> (r: [Value; 4])
        ensures
            r[0] == self.spec_stack().x && r[1] == self.spec_stack().y && r[2] == self.spec_stack().z
                && r[3] == self.spec_stack().t,
    {
        self.stack.get_registers()
    }

    /// The value of a storage register, when in range.
    pub fn test_get_storage(&self, register: usize) -> (r: Option<Value>)
        ensures
            register < self.spec_storage().len() ==> r == Some(self.spec_storage()[register as int]),
            register >= self.spec_storage().len() ==> r is None,
    {
        if register < self.storage_registers.len() {
            Some(self.storage_registers[register])
        } else {
            None
        }
    }

    /// The parser state rendered for the status line.
    pub fn test_get_command_buffer(&self) -> (r: String) {
        self.command_parser.get_current_state()
    }

    /// Whether programming mode is on.
    pub fn test_is_programming(&self) -> (r: bool)
        ensures
            r == self.spec_programming().is_programming,
    {
        self.programming.is_programming
    }

    /// The run-mode program counter.
    pub fn test_get_program_counter(&self) -> (r: usize)
        ensures
            r == self.spec_programming().program_counter,
    {
        self.programming.program_counter
    }

    /// The next line number for program entry.
    pub fn test_get_current_line(&self) -> (r: i32)
        ensures
            r == self.spec_programming().current_line,
    {
        self.programming.current_line
    }

    /// The current display mode.
    pub fn test_get_display_mode(&self) -> (r: DisplayMode)
        ensures
            r == self.spec_display().mode,
    {
        self.display_formatter.mode
    }

    /// The current decimal-place count.
    pub fn test_get_display_digits(&self) -> (r: usize)
        ensures
            r == self.spec_display().digits,
    {
        self.display_formatter.digits
    }

    /// Whether number entry is in progress.
    pub fn test_is_input_entering(&self) -> (r: bool)
        ensures
            r == self.spec_input().entering,
    {
        self.input.is_entering()
    }

    /// How many instructions the program holds.
    pub fn test_get_program_length(&self) -> (r: usize)
        ensures
            r == self.spec_programming().program@.len(),
    {
        self.programming.program.len()
    }

    /// Set the X register directly.
    pub fn test_set_x_register(&mut self, value: Value)
        requires
            old(self).wf(),
            value.wf(),
        ensures
            final(self).wf(),
            final(self).spec_stack() == (Stack { x: value, ..old(self).spec_stack() }),
    {
        self.stack.set_x(value);
    }

    /// Clear the command parser state.
    pub fn test_clear_command_buffer(&mut self)
        requires
            old(self).wf(),
        ensures
            final(self).wf(),
            final(self).spec_parser_cmd().len() == 0,
            final(self).spec_parser_args().len() == 0,
            old(self).only_parser_changed(final(self)),
    {
        self.command_parser.clear();
    }

    /// Whether the flag display is on.
    pub fn test_get_show_flags(&self) -> (r: bool)
        ensures
            r == self.spec_show_flags(),
    {
        self.show_flags
    }

    /// Record an instruction directly (used by tests).
    pub fn test_add_program_instruction(&mut self, cmd: &str, args: Option<Vec<String>>)
        requires
            old(self).wf(),
        ensures
            final(self).wf(),
            add_instruction_ensures(
                old(self).spec_programming(),
                final(self).spec_programming(),
                cmd@,
                match args {
                    Some(a) => a.deep_view(),
                    None => Seq::empty(),
                },
                old(self).spec_programming().is_programming && old(
                    self,
                ).spec_programming().program@.len() < MAX_PROGRAM_LINES,
            ),
            final(self).spec_stack() == old(self).spec_stack(),
            final(self).spec_input() == old(self).spec_input(),
            final(self).spec_pending() == old(self).spec_pending(),
    {
        self.programming.add_instruction(cmd, args, cmd);
    }

    /// Run one already-assembled command string through the parser (from
    /// a cleared state) and execute what completes; a token that leaves
    /// the parser waiting is force-completed, and one that starts nothing
    /// reports the failure.
    pub fn process_command_string(&mut self, cmd: &str) -> (r: Result<Option<String>, String>)
        requires
            old(self).wf(),
        ensures
            final(self).wf(),
            ({
                let st = spec_step(old(self).spec_parser_reg(), Seq::empty(), Seq::empty(), cmd@);
                &&& (st.out matches StepOutcome::Complete { command: c, args: a } ==> old(
                    self,
                ).executed_ensures(final(self), c, a, r))
                &&& (!(st.out is Complete) ==> match spec_force(st.cmd, st.args) {
                    StepOutcome::Complete { command: c, args: a } => old(self).executed_ensures(
                        final(self),
                        c,
                        a,
                        r,
                    ),
                    StepOutcome::Invalid(m) => (r matches Err(msg) && msg@ == m),
                    StepOutcome::Incomplete => true,
                })
            }),
    {
        self.command_parser.clear();
        match self.command_parser.add_input(cmd) {
            ParseResult::Complete { command, args } => {
                let ghost mid = *self;
                let ghost a = args.deep_view();
                let res = self.execute_command(command.as_str(), args);
                proof {
                    HP41CCalculator::lemma_executed_pre_transfer(
                        &mid,
                        old(self),
                        self,
                        command@,
                        a,
                        res,
                    );
                }
                res
            },
            ParseResult::Incomplete => {
                match self.command_parser.force_complete() {
                    ParseResult::Complete { command, args } => {
                        let ghost mid = *self;
                        let ghost a = args.deep_view();
                        let res = self.execute_command(command.as_str(), args);
                        proof {
                            HP41CCalculator::lemma_executed_pre_transfer(
                                &mid,
                                old(self),
                                self,
                                command@,
                                a,
                                res,
                            );
                        }
                        res
                    },
                    ParseResult::Invalid(msg) => Err(msg),
                    ParseResult::Incomplete => Err(String::from_str("Command incomplete")),
                }
            },
            ParseResult::Invalid(_) => {
                match self.command_parser.force_complete() {
                    ParseResult::Complete { command, args } => {
                        let ghost mid = *self;
                        let ghost a = args.deep_view();
                        let res = self.execute_command(command.as_str(), args);
                        proof {
                            HP41CCalculator::lemma_executed_pre_transfer(
                                &mid,
                                old(self),
                                self,
                                command@,
                                a,
                                res,
                            );
                        }
                        res
                    },
                    ParseResult::Invalid(msg) => Err(msg),
                    ParseResult::Incomplete => Err(String::from_str("Command incomplete")),
                }
            },
        }
    }

    /// One dispatch outcome `er` witnessing a single step: the program
    /// counter advanced and run mode paused first, then the instruction
    /// under the old counter executed per the dispatch contract; its trace
    /// line carries the rendered instruction, and a failure comes back
    /// rendered.
    pub open spec fn sst_witnessed(
        &self,
        post: &HP41CCalculator,
        r: Result<Option<String>, String>,
        er: Result<ExecOutcome, CalculatorError>,
    ) -> bool {
        let instr = self.spec_programming().program@[self.spec_programming().program_counter as int];
        let prog_mid = (ProgrammingMode {
            program_counter: (self.spec_programming().program_counter + 1) as usize,
            is_running: false,
            ..self.spec_programming()
        });
        let a: Option<Seq<Seq<char>>> = if instr.arguments@.len() == 0 {
            None
        } else {
            Some(instr.arguments.deep_view())
        };
        &&& crate::execution::dispatch_ensures(
            instr.command@,
            a,
            self.spec_stack(),
            post.spec_stack(),
            self.spec_input(),
            post.spec_input(),
            prog_mid,
            post.spec_programming(),
            self.spec_display(),
            post.spec_display(),
            self.spec_storage(),
            post.spec_storage(),
            er,
        )
        &&& match er {
            Ok(eo) => (r matches Ok(m) && m matches Some(msg) && msg@ == "SST: "@
                + spec_instruction_display(instr)) && (match eo {
                ExecOutcome::Msg(_) => post.spec_pending() == self.spec_pending(),
                ExecOutcome::NeedMath(q) => post.spec_pending() == Some(q),
            }),
            Err(e) => (r matches Err(msg) && msg@ == e.spec_message()) && post.spec_pending()
                == self.spec_pending(),
        }
    }

    /// What single-stepping an instruction guarantees: some dispatch
    /// outcome witnesses it.
    pub open spec fn sst_step_ensures(
        &self,
        post: &HP41CCalculator,
        r: Result<Option<String>, String>,
    ) -> bool {
        exists|er: Result<ExecOutcome, CalculatorError>| #[trigger] self.sst_witnessed(post, r, er)
    }

    /// Single-step execution: run the instruction under the program
    /// counter (advancing it and pausing run mode first), reporting the
    /// executed step; past the end of the program only an end marker is
    /// reported and nothing changes.
    #[verifier::spinoff_prover]
    #[verifier::rlimit(100)]
    pub fn sst_execute(&mut self) -> (r: Result<Option<String>, String>)
        requires
            old(self).wf(),
        ensures
            final(self).wf(),
            old(self).spec_programming().program_counter >= old(self).spec_programming().program@.len() ==> (r matches Ok(m) && m matches Some(msg) && msg@
                == ".END. 49"@) && old(self).only_parser_changed(final(self)) && final(self).spec_parser_cmd() == old(self).spec_parser_cmd(),
            old(self).spec_programming().program_counter < old(self).spec_programming().program@.len() ==> old(self).sst_step_ensures(final(self), r),
    {
        if self.programming.program_counter < self.programming.program.len() {
            let instruction = self.programming.program[self.programming.program_counter].clone();
            let shown = instruction.display_string();
            proof {
                assert(self.programming.program_counter + 1 <= self.programming.program@.len());
            }
            self.programming.program_counter = self.programming.program_counter + 1;
            self.programming.is_running = false;  // Pause after single step
            let args: Option<Vec<String>> = if instruction.arguments.len() == 0 {
                None
            } else {
                Some(instruction.arguments)
            };
            let ghost mid = *self;
            let ghost args_v = args.deep_view();
            let inner = self.execute_command(instruction.command.as_str(), args);
            let ghost ir = inner;
            let out = match inner {
                Ok(_) => Ok(Some(String::from_str("SST: ").concat(shown.as_str()))),
                Err(e) => Err(e),
            };
            proof {
                let instr = old(self).spec_programming().program@[old(self).spec_programming().program_counter as int];
                let prog_mid = (ProgrammingMode {
                    program_counter: (old(self).spec_programming().program_counter + 1) as usize,
                    is_running: false,
                    ..old(self).spec_programming()
                });
                let a: Option<Seq<Seq<char>>> = if instr.arguments@.len() == 0 {
                    None
                } else {
                    Some(instr.arguments.deep_view())
                };
                assert(instruction.arguments.deep_view() =~= instr.arguments.deep_view());
                assert(spec_instruction_display(instruction) == spec_instruction_display(instr));
                assert(mid.spec_programming() == prog_mid);
                assert(args_v == a);
                let er = HP41CCalculator::lemma_executed_witness(
                    &mid,
                    self,
                    instruction.command@,
                    args_v,
                    ir,
                );
                assert(crate::execution::dispatch_ensures(
                    instr.command@,
                    a,
                    old(self).spec_stack(),
                    self.spec_stack(),
                    old(self).spec_input(),
                    self.spec_input(),
                    prog_mid,
                    self.spec_programming(),
                    old(self).spec_display(),
                    self.spec_display(),
                    old(self).spec_storage(),
                    self.spec_storage(),
                    er,
                ));
                assert(match er {
                    Ok(eo) => (out matches Ok(m) && m matches Some(msg) && msg@ == "SST: "@
                        + spec_instruction_display(instr)) && (match eo {
                        ExecOutcome::Msg(_) => self.spec_pending() == old(self).spec_pending(),
                        ExecOutcome::NeedMath(q) => self.spec_pending() == Some(q),
                    }),
                    Err(e) => (out matches Err(msg) && msg@ == e.spec_message()) && self.spec_pending() == old(self).spec_pending(),
                });
                assert(old(self).sst_witnessed(self, out, er));
                assert(old(self).sst_step_ensures(self, out));
            }
            out
        } else {
            Ok(Some(String::from_str(".END. 49")))
        }
    }

    /// The stack, as seen by specifications.
    pub closed spec fn spec_stack(&self) -> Stack {
        self.stack
    }

    /// The input state, as seen by specifications.
    pub closed spec fn spec_input(&self) -> crate::input::InputV {
        self.input@
    }

    /// The programming state, as seen by specifications.
    pub closed spec fn spec_programming(&self) -> ProgrammingMode {
        self.programming
    }

    /// The display formatter, as seen by specifications.
    pub closed spec fn spec_display(&self) -> DisplayFormatter {
        self.display_formatter
    }

    /// The storage registers, as seen by specifications.
    pub closed spec fn spec_storage(&self) -> Seq<Value> {
        self.storage_registers@
    }

    /// The flag display toggle, as seen by specifications.
    pub closed spec fn spec_show_flags(&self) -> bool {
        self.show_flags
    }

    /// The parser's committed command name, as seen by specifications.
    pub closed spec fn spec_parser_cmd(&self) -> Seq<char> {
        self.command_parser.cmd()
    }

    /// The parser's collected arguments, as seen by specifications.
    pub closed spec fn spec_parser_args(&self) -> Seq<Seq<char>> {
        self.command_parser.args()
    }

    /// The parser's registry, as seen by specifications.
    pub closed spec fn spec_parser_reg(&self) -> Seq<crate::registry::CommandSpec> {
        self.command_parser.reg()
    }
}

impl Default for HP41CCalculator {
    /// A freshly initialized calculator.
    fn default() -> (r: HP41CCalculator)
        ensures
            r.wf(),
            r.spec_pending() is None,
    {
        HP41CCalculator::new()
    }
}

/// A string padded on the right with spaces to at least `width`
/// characters.
pub open spec fn spec_padded(s: Seq<char>, width: int) -> Seq<char> {
    if s.len() >= width {
        s
    } else {
        s + Seq::new((width - s.len()) as nat, |i: int| ' ')
    }
}

/// `s` padded on the right with spaces to at least `width` characters.
fn pad_to(s: &String, width: usize) -> (r: String)
    requires
        width <= 64,
    ensures
        r@ == spec_padded(s@, width as int),
        r@.len() >= width,
{
    let n = s.as_str().unicode_len();
    if n >= width {
        return s.clone();
    }
    let mut v: Vec<char> = Vec::new();
    let mut i: usize = 0;
    while i < width - n
        invariant
            n < width <= 64,
            i <= width - n,
            v@ =~= Seq::new(i as nat, |j: int| ' '),
        decreases width - n - i,
    {
        v.push(' ');
        proof {
            assert(v@ =~= Seq::new((i + 1) as nat, |j: int| ' '));
        }
        i = i + 1;
    }
    let pad = chars_to_string(&v);
    let r = s.clone().concat(pad.as_str());
    proof {
        assert(r@ =~= spec_padded(s@, width as int));
    }
    r
}

} // verus!
