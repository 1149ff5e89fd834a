//! Command execution: dispatching a completed command against the stack,
//! input state, programming state, display formatter and storage.
//!
//! Commands whose result this crate can compute are executed here in full.
//! A transcendental function (or a power) has no decimal implementation:
//! after its domain is validated the dispatcher returns a
//! `MathRequest` and the caller applies the host-computed
//! result through `HP41CCalculator::apply_math_result`.

use crate::display::{DisplayFormatter, DisplayMode};
use crate::error::{CalculatorError, CommandError, ProgrammingError, StackError, StorageError};
use crate::input::InputState;
use crate::math::{MathEval, MathFunction, execute_math_function, factorial};
use crate::programming::{ProgrammingMode, add_instruction_ensures, spec_cursor_message,
    spec_first_line_ge, spec_label_lookup, MAX_PROGRAM_LINES};
use crate::stack::{Stack, spec_drop, spec_lift};
use crate::text::{spec_digit_char, spec_digit_val, spec_digits_val, spec_is_digit, spec_lower_seq, spec_upper_seq,
    spec_u64_digits, digit_val, is_digit, str_eq, str_lower, str_upper, two_digit_string};
use crate::value::Value;
use vstd::prelude::*;
use vstd::string::*;

verus! {

/// A validated request for the host: evaluate a transcendental function
/// of one value, or raise one value to another.
#[derive(Clone, Copy, Debug, PartialEq, Eq, Structural)]
pub enum MathRequest {
    /// Evaluate the function at the value (the current X register).
    Unary(MathFunction, Value),
    /// Raise the first value (Y) to the second (X).
    Power(Value, Value),
}

/// What executing a command produced: an optional message, or a pending
/// math request the host must answer before anything else happens.
#[derive(Debug)]
pub enum ExecOutcome {
    /// The command finished, perhaps with a message to show.
    Msg(Option<String>),
    /// The command needs the host to evaluate this request.
    NeedMath(MathRequest),
}

/// The number of storage registers.
pub const NUM_STORAGE_REGISTERS: usize = 100;

/// The value of pi to 15 significant digits.
pub open spec fn spec_pi() -> Value {
    Value { neg: false, mant: 314_159_265_358_979, exp: 0 }
}

/// The register number named by an argument: up to six digit characters.
pub open spec fn spec_register_arg(a: Seq<char>) -> Option<int> {
    if a.len() >= 1 && a.len() <= 6 && (forall|i: int|
        0 <= i < a.len() ==> spec_is_digit(#[trigger] a[i])) {
        Some(spec_digits_val(a))
    } else {
        None
    }
}

/// The digit count named by a display-mode argument: one digit, at most 9.
pub open spec fn spec_digit_arg(a: Seq<char>) -> Option<int> {
    if a.len() == 1 && spec_is_digit(a[0]) {
        Some(spec_digits_val(a))
    } else {
        None
    }
}

/// Parse a register argument: a short, all-digit token.
fn parse_register_arg(a: &str) -> (r: Option<u64>)
    ensures
        r is Some <==> spec_register_arg(a@) is Some,
        r is Some ==> r.unwrap() == spec_register_arg(a@).unwrap() && r.unwrap() < 1_000_000,
{
    let n = a.unicode_len();
    if n < 1 || n > 6 {
        return None;
    }
    let mut i: usize = 0;
    let mut d: u64 = 0;
    while i < n
        invariant
            i <= n == a@.len() <= 6,
            forall|j: int| 0 <= j < i ==> spec_is_digit(#[trigger] a@[j]),
            d == spec_digits_val(a@.subrange(0, i as int)),
            d < 1_000_000,
        decreases n - i,
    {
        let c = a.get_char(i);
        if !is_digit(c) {
            proof {
                assert(!spec_is_digit(a@[i as int]));
            }
            return None;
        }
        proof {
            assert(a@.subrange(0, i + 1) =~= a@.subrange(0, i as int).push(a@[i as int]));
            assert(a@.subrange(0, i + 1).drop_last() =~= a@.subrange(0, i as int));
            assert(forall|j: int|
                0 <= j < i + 1 ==> spec_is_digit(#[trigger] a@.subrange(0, i + 1)[j]));
            crate::text::lemma_digits_val_bounds(a@.subrange(0, i + 1));
            crate::value::lemma_pow10_mono(a@.subrange(0, i + 1).len(), 6nat);
            assert(crate::value::pow10(6) == 1_000_000) by {
                reveal_with_fuel(crate::value::pow10, 8);
            }
        }
        d = d * 10 + digit_val(c);
        i = i + 1;
    }
    proof {
        assert(a@.subrange(0, n as int) =~= a@);
    }
    Some(d)
}

/// Execute a calculator command against the shared state. Binary and
/// stack operations, storage, display modes, programming commands, the
/// factorial and the reciprocal all finish here; transcendental functions
/// and powers come back as a `MathRequest`. Validation happens before any
/// state moves, so a failed command changes nothing.
#[verifier::rlimit(100)]
pub fn execute_command(
    command: &str,
    args: Option<Vec<String>>,
    stack: &mut Stack,
    input: &mut InputState,
    programming: &mut ProgrammingMode,
    display: &mut DisplayFormatter,
    storage: &mut Vec<Value>,
) -> (r: Result<ExecOutcome, CalculatorError>)
    requires
        old(stack).wf(),
        old(input).wf(),
        old(programming).wf(),
        old(display).wf(),
        old(storage)@.len() == NUM_STORAGE_REGISTERS,
        forall|i: int| 0 <= i < old(storage)@.len() ==> (#[trigger] old(storage)@[i]).wf(),
    ensures
        final(stack).wf(),
        final(input).wf(),
        final(programming).wf(),
        final(display).wf(),
        final(storage)@.len() == NUM_STORAGE_REGISTERS,
        forall|i: int| 0 <= i < final(storage)@.len() ==> (#[trigger] final(storage)@[i]).wf(),
        dispatch_ensures(
            command@,
            args.deep_view(),
            *old(stack),
            *final(stack),
            old(input)@,
            final(input)@,
            *old(programming),
            *final(programming),
            *old(display),
            *final(display),
            old(storage)@,
            final(storage)@,
            r,
        ),
{
    let command_lower = str_lower(command);
    let cmd = command_lower.as_str();
    proof {
        reveal_strlit("+");
        reveal_strlit("-");
        reveal_strlit("*");
        reveal_strlit("/");
        reveal_strlit("^");
        reveal_strlit("pow");
        reveal_strlit("enter");
        reveal_strlit("swap");
        reveal_strlit("clx");
        reveal_strlit("clr");
        reveal_strlit("chs");
        reveal_strlit("pi");
        reveal_strlit("eex");
        reveal_strlit("sto");
        reveal_strlit("rcl");
        reveal_strlit("fix");
        reveal_strlit("sci");
        reveal_strlit("eng");
        reveal_strlit("gto");
        reveal_strlit("lbl");
        reveal_strlit("xeq");
        reveal_strlit("rtn");
        reveal_strlit("sst");
        reveal_strlit("bst");
        reveal_strlit("prgm");
        reveal_strlit("arc");
        reveal_strlit("!");
        reveal_strlit("sin");
        reveal_strlit("cos");
        reveal_strlit("tan");
        reveal_strlit("asin");
        reveal_strlit("acos");
        reveal_strlit("atan");
        reveal_strlit("log");
        reveal_strlit("ln");
        reveal_strlit("exp");
        reveal_strlit("sqrt");
        reveal_strlit("inv");
        // Pin each literal's characters so distinct names are provably distinct.
        assert(("+"@).len() == 1 && ("+"@)[0] == '+');
        assert(("-"@).len() == 1 && ("-"@)[0] == '-');
        assert(("*"@).len() == 1 && ("*"@)[0] == '*');
        assert(("/"@).len() == 1 && ("/"@)[0] == '/');
        assert(("^"@).len() == 1 && ("^"@)[0] == '^');
        assert(("pow"@).len() == 3 && ("pow"@)[0] == 'p' && ("pow"@)[1] == 'o' && ("pow"@)[2] == 'w');
        assert(("enter"@).len() == 5 && ("enter"@)[0] == 'e' && ("enter"@)[1] == 'n' && ("enter"@)[2] == 't' && ("enter"@)[3] == 'e' && ("enter"@)[4] == 'r');
        assert(("swap"@).len() == 4 && ("swap"@)[0] == 's' && ("swap"@)[1] == 'w' && ("swap"@)[2] == 'a' && ("swap"@)[3] == 'p');
        assert(("clx"@).len() == 3 && ("clx"@)[0] == 'c' && ("clx"@)[1] == 'l' && ("clx"@)[2] == 'x');
        assert(("clr"@).len() == 3 && ("clr"@)[0] == 'c' && ("clr"@)[1] == 'l' && ("clr"@)[2] == 'r');
        assert(("chs"@).len() == 3 && ("chs"@)[0] == 'c' && ("chs"@)[1] == 'h' && ("chs"@)[2] == 's');
        assert(("pi"@).len() == 2 && ("pi"@)[0] == 'p' && ("pi"@)[1] == 'i');
        assert(("eex"@).len() == 3 && ("eex"@)[0] == 'e' && ("eex"@)[1] == 'e' && ("eex"@)[2] == 'x');
        assert(("sto"@).len() == 3 && ("sto"@)[0] == 's' && ("sto"@)[1] == 't' && ("sto"@)[2] == 'o');
        assert(("rcl"@).len() == 3 && ("rcl"@)[0] == 'r' && ("rcl"@)[1] == 'c' && ("rcl"@)[2] == 'l');
        assert(("fix"@).len() == 3 && ("fix"@)[0] == 'f' && ("fix"@)[1] == 'i' && ("fix"@)[2] == 'x');
        assert(("sci"@).len() == 3 && ("sci"@)[0] == 's' && ("sci"@)[1] == 'c' && ("sci"@)[2] == 'i');
        assert(("eng"@).len() == 3 && ("eng"@)[0] == 'e' && ("eng"@)[1] == 'n' && ("eng"@)[2] == 'g');
        assert(("gto"@).len() == 3 && ("gto"@)[0] == 'g' && ("gto"@)[1] == 't' && ("gto"@)[2] == 'o');
        assert(("lbl"@).len() == 3 && ("lbl"@)[0] == 'l' && ("lbl"@)[1] == 'b' && ("lbl"@)[2] == 'l');
        assert(("xeq"@).len() == 3 && ("xeq"@)[0] == 'x' && ("xeq"@)[1] == 'e' && ("xeq"@)[2] == 'q');
        assert(("rtn"@).len() == 3 && ("rtn"@)[0] == 'r' && ("rtn"@)[1] == 't' && ("rtn"@)[2] == 'n');
        assert(("sst"@).len() == 3 && ("sst"@)[0] == 's' && ("sst"@)[1] == 's' && ("sst"@)[2] == 't');
        assert(("bst"@).len() == 3 && ("bst"@)[0] == 'b' && ("bst"@)[1] == 's' && ("bst"@)[2] == 't');
        assert(("prgm"@).len() == 4 && ("prgm"@)[0] == 'p' && ("prgm"@)[1] == 'r' && ("prgm"@)[2] == 'g' && ("prgm"@)[3] == 'm');
        assert(("arc"@).len() == 3 && ("arc"@)[0] == 'a' && ("arc"@)[1] == 'r' && ("arc"@)[2] == 'c');
        assert(("!"@).len() == 1 && ("!"@)[0] == '!');
        assert(("sin"@).len() == 3 && ("sin"@)[0] == 's' && ("sin"@)[1] == 'i' && ("sin"@)[2] == 'n');
        assert(("cos"@).len() == 3 && ("cos"@)[0] == 'c' && ("cos"@)[1] == 'o' && ("cos"@)[2] == 's');
        assert(("tan"@).len() == 3 && ("tan"@)[0] == 't' && ("tan"@)[1] == 'a' && ("tan"@)[2] == 'n');
        assert(("asin"@).len() == 4 && ("asin"@)[0] == 'a' && ("asin"@)[1] == 's' && ("asin"@)[2] == 'i' && ("asin"@)[3] == 'n');
        assert(("acos"@).len() == 4 && ("acos"@)[0] == 'a' && ("acos"@)[1] == 'c' && ("acos"@)[2] == 'o' && ("acos"@)[3] == 's');
        assert(("atan"@).len() == 4 && ("atan"@)[0] == 'a' && ("atan"@)[1] == 't' && ("atan"@)[2] == 'a' && ("atan"@)[3] == 'n');
        assert(("log"@).len() == 3 && ("log"@)[0] == 'l' && ("log"@)[1] == 'o' && ("log"@)[2] == 'g');
        assert(("ln"@).len() == 2 && ("ln"@)[0] == 'l' && ("ln"@)[1] == 'n');
        assert(("exp"@).len() == 3 && ("exp"@)[0] == 'e' && ("exp"@)[1] == 'x' && ("exp"@)[2] == 'p');
        assert(("sqrt"@).len() == 4 && ("sqrt"@)[0] == 's' && ("sqrt"@)[1] == 'q' && ("sqrt"@)[2] == 'r' && ("sqrt"@)[3] == 't');
        assert(("inv"@).len() == 3 && ("inv"@)[0] == 'i' && ("inv"@)[1] == 'n' && ("inv"@)[2] == 'v');
    }
    if str_eq(cmd, "+") {
        match stack.add() {
            Ok(_) => {
                input.clear();
                Ok(ExecOutcome::Msg(None))
            },
            Err(e) => Err(CalculatorError::Stack(e)),
        }
    } else if str_eq(cmd, "-") {
        match stack.subtract() {
            Ok(_) => {
                input.clear();
                Ok(ExecOutcome::Msg(None))
            },
            Err(e) => Err(CalculatorError::Stack(e)),
        }
    } else if str_eq(cmd, "*") {
        match stack.multiply() {
            Ok(_) => {
                input.clear();
                Ok(ExecOutcome::Msg(None))
            },
            Err(e) => Err(CalculatorError::Stack(e)),
        }
    } else if str_eq(cmd, "/") {
        match stack.divide() {
            Ok(_) => {
                input.clear();
                Ok(ExecOutcome::Msg(None))
            },
            Err(e) => Err(CalculatorError::Stack(e)),
        }
    } else if str_eq(cmd, "^") || str_eq(cmd, "pow") {
        Ok(ExecOutcome::NeedMath(MathRequest::Power(stack.get_y(), stack.get_x())))
    } else if str_eq(cmd, "sin") || str_eq(cmd, "cos") || str_eq(cmd, "tan") || str_eq(cmd, "asin")
        || str_eq(cmd, "acos") || str_eq(cmd, "atan") || str_eq(cmd, "log") || str_eq(cmd, "ln")
        || str_eq(cmd, "exp") || str_eq(cmd, "sqrt") || str_eq(cmd, "inv") {
        match execute_math_function(cmd, stack.get_x()) {
            Ok(MathEval::Done(v)) => {
                stack.set_x(v);
                stack.set_lift_flag(true);
                input.clear();
                Ok(ExecOutcome::Msg(None))
            },
            Ok(MathEval::Pending(f)) => Ok(ExecOutcome::NeedMath(MathRequest::Unary(f, stack.get_x()))),
            Err(e) => Err(CalculatorError::Stack(e)),
        }
    } else if str_eq(cmd, "enter") {
        stack.lift();
        stack.set_lift_flag(false);
        input.clear();
        Ok(ExecOutcome::Msg(None))
    } else if str_eq(cmd, "swap") {
        stack.swap();
        input.clear();
        Ok(ExecOutcome::Msg(None))
    } else if str_eq(cmd, "clx") {
        stack.clear_x();
        input.clear();
        Ok(ExecOutcome::Msg(None))
    } else if str_eq(cmd, "clr") {
        stack.clear_all();
        input.clear();
        Ok(ExecOutcome::Msg(None))
    } else if str_eq(cmd, "chs") {
        stack.change_sign();
        input.clear();
        Ok(ExecOutcome::Msg(None))
    } else if str_eq(cmd, "pi") {
        if stack.should_lift() {
            stack.lift();
        }
        stack.set_x(Value { neg: false, mant: 314_159_265_358_979, exp: 0 });
        stack.set_lift_flag(true);
        input.clear();
        Ok(ExecOutcome::Msg(None))
    } else if str_eq(cmd, "lbl") || str_eq(cmd, "gto") || str_eq(cmd, "xeq") || str_eq(cmd, "rtn")
        || str_eq(cmd, "sst") || str_eq(cmd, "bst") || str_eq(cmd, "prgm") {
        let r = execute_programming_command(cmd, args, programming);
        if r.is_ok() {
            input.clear();
        }
        r
    } else if str_eq(cmd, "fix") || str_eq(cmd, "sci") || str_eq(cmd, "eng") {
        let r = execute_display_command(cmd, args, display);
        if r.is_ok() {
            input.clear();
        }
        r
    } else if str_eq(cmd, "sto") || str_eq(cmd, "rcl") {
        let r = execute_storage_command(cmd, args, stack, storage);
        if r.is_ok() {
            input.clear();
        }
        r
    } else if str_eq(cmd, "!") {
        match factorial(stack.get_x()) {
            Ok(v) => {
                stack.set_x(v);
                stack.set_lift_flag(true);
                input.clear();
                Ok(ExecOutcome::Msg(None))
            },
            Err(e) => Err(CalculatorError::Stack(e)),
        }
    } else if str_eq(cmd, "eex") {
        match input.enter_eex_mode() {
            Ok(_) => Ok(ExecOutcome::Msg(None)),
            Err(e) => Err(CalculatorError::Input(e)),
        }
    } else if str_eq(cmd, "arc") {
        input.clear();
        Ok(ExecOutcome::Msg(Some(String::from_str("ARC mode not implemented"))))
    } else {
        Err(CalculatorError::Command(CommandError::UnknownCommand(command_lower)))
    }
}


/// The full dispatch contract of `execute_command`, stated over the
/// component values it reads and writes: one clause per command, exactly
/// as the command behaves.
pub open spec fn dispatch_ensures(
    command: Seq<char>,
    args: Option<Seq<Seq<char>>>,
    stack0: Stack,
    stack1: Stack,
    input0: crate::input::InputV,
    input1: crate::input::InputV,
    prog0: ProgrammingMode,
    prog1: ProgrammingMode,
    display0: DisplayFormatter,
    display1: DisplayFormatter,
    storage0: Seq<Value>,
    storage1: Seq<Value>,
    r: Result<ExecOutcome, CalculatorError>,
) -> bool {
    let cmd = spec_lower_seq(command);
    &&& (cmd == "+"@ ==> binary_op_ensures(
        crate::value::spec_add(stack0.y, stack0.x),
        stack0,
        stack1,
        input0,
        input1,
        r,
    ))
    &&& (cmd == "-"@ ==> binary_op_ensures(
        crate::value::spec_sub(stack0.y, stack0.x),
        stack0,
        stack1,
        input0,
        input1,
        r,
    ))
    &&& (cmd == "*"@ ==> binary_op_ensures(
        crate::value::spec_mul(stack0.y, stack0.x),
        stack0,
        stack1,
        input0,
        input1,
        r,
    ))
    &&& (cmd == "/"@ ==> (if stack0.x.spec_is_zero() {
        r matches Err(CalculatorError::Stack(StackError::DivisionByZero)) && stack1
            == stack0 && input1 == input0
    } else {
        binary_op_ensures(
            crate::value::spec_div(stack0.y, stack0.x),
            stack0,
            stack1,
            input0,
            input1,
            r,
        )
    }))
    &&& (cmd == "^"@ || cmd == "pow"@ ==> (r matches Ok(ExecOutcome::NeedMath(
        MathRequest::Power(y, x),
    )) && y == stack0.y && x == stack0.x && stack1 == stack0
        && input1 == input0))
    &&& (cmd == "enter"@ ==> r is Ok && stack1 == (Stack {
        lifted: false,
        ..spec_lift(stack0)
    }) && input1 == crate::input::cleared())
    &&& (cmd == "swap"@ ==> r is Ok && stack1 == (Stack {
        x: stack0.y,
        y: stack0.x,
        ..stack0 }) && input1 == crate::input::cleared())
    &&& (cmd == "clx"@ ==> r is Ok && stack1 == (Stack {
        x: Value { neg: false, mant: 0, exp: 0 },
        ..stack0 }) && input1 == crate::input::cleared())
    &&& (cmd == "clr"@ ==> r is Ok && stack1.x.spec_is_zero() && stack1.y.spec_is_zero() && stack1.z.spec_is_zero() && stack1.t.spec_is_zero()
        && !stack1.lifted && input1 == crate::input::cleared())
    &&& (cmd == "chs"@ ==> r is Ok && stack1 == (Stack {
        x: crate::value::spec_negate(stack0.x),
        ..stack0 }) && input1 == crate::input::cleared())
    &&& (cmd == "pi"@ ==> r is Ok && stack1.x == spec_pi() && stack1.lifted
        && (stack0.lifted ==> stack1.y == stack0.x && stack1.z == stack0.y && stack1.t == stack0.z) && (!stack0.lifted ==> stack1.y
        == stack0.y && stack1.z == stack0.z && stack1.t == stack0.t) && input1 == crate::input::cleared())
    &&& (cmd == "eex"@ ==> r is Ok && input1 == (crate::input::InputV {
        entering: true,
        mant: if input0.entering {
            input0.mant
        } else {
            seq!['0']
        },
        eexm: true,
        eexd: Seq::<char>::empty(),
    }) && stack1 == stack0)
    &&& (cmd == "sto"@ || cmd == "rcl"@ ==> (r is Ok ==> input1
        == crate::input::cleared()) && (r is Err ==> input1 == input0)
        && storage_ensures(
        cmd,
        args,
        stack0,
        stack1,
        storage0,
        storage1,
        r,
    ))
    &&& (cmd == "fix"@ || cmd == "sci"@ || cmd == "eng"@ ==> (r is Ok ==> input1
        == crate::input::cleared()) && (r is Err ==> input1 == input0)
        && display_ensures(
        cmd,
        args,
        display0,
        display1,
        r,
    ) && stack1 == stack0)
    &&& (cmd == "gto"@ ==> goto_ensures(
        args,
        prog0,
        prog1,
        r,
    ) && (r is Ok ==> input1 == crate::input::cleared()))
    &&& (cmd == "xeq"@ ==> xeq_ensures(
        args,
        prog0,
        prog1,
        r,
    ) && (r is Ok ==> input1 == crate::input::cleared()))
    &&& (cmd == "sin"@ || cmd == "cos"@ || cmd == "tan"@ || cmd == "asin"@ || cmd
        == "acos"@ || cmd == "atan"@ || cmd == "log"@ || cmd == "ln"@ || cmd == "exp"@
        || cmd == "sqrt"@ || cmd == "inv"@ ==> math_fn_ensures(
        cmd,
        stack0,
        stack1,
        input0,
        input1,
        r,
    ))
    &&& (cmd == "!"@ ==> factorial_ensures(
        stack0,
        stack1,
        input0,
        input1,
        r,
    ))
    &&& (cmd == "lbl"@ ==> (if !prog0.is_programming {
        r is Ok && prog1 == prog0
    } else {
        match args {
            Option::Some(a) => if a.len() == 0 {
                (r matches Err(CalculatorError::Command(CommandError::MissingArgument(c))) && c@
                    == "LBL"@) && prog1 == prog0
            } else {
                r is Ok && add_instruction_ensures(
                    prog0,
                    prog1,
                    "LBL"@,
                    a,
                    prog0.program@.len() < MAX_PROGRAM_LINES,
                )
            },
            Option::None => (r matches Err(CalculatorError::Command(
                CommandError::MissingArgument(c),
            )) && c@ == "LBL"@) && prog1 == prog0,
        }
    }))
    &&& (cmd == "rtn"@ && prog0.is_programming ==> r is Ok && add_instruction_ensures(
        prog0,
        prog1,
        "RTN"@,
        Seq::empty(),
        prog0.program@.len() < MAX_PROGRAM_LINES,
    ))
    &&& (cmd == "rtn"@ ==> r is Ok && (!prog0.is_programming ==> (if prog0.subroutine_stack@.len() > 0 {
        prog1.program_counter == prog0.subroutine_stack@.last() && prog1.subroutine_stack@ == prog0.subroutine_stack@.subrange(0, prog0.subroutine_stack@.len() - 1)
    } else {
        !prog1.is_running && prog1 == (ProgrammingMode {
            is_running: false,
            subroutine_stack: prog1.subroutine_stack,
            ..prog0
        })
    })))
    &&& (cmd == "sst"@ ==> (if prog0.program@.len() == 0 {
        (r matches Err(CalculatorError::Programming(ProgrammingError::NoProgram)))
            && prog1 == prog0
    } else {
        (r matches Ok(ExecOutcome::Msg(m)) && m matches Some(msg) && msg@ == spec_cursor_message(
            prog1,
            "End of program"@,
        )) && prog1.program_counter == (prog0.program_counter + 1) % (prog0.program@.len() as int)
    }))
    &&& (cmd == "bst"@ ==> (if prog0.program@.len() == 0 {
        (r matches Err(CalculatorError::Programming(ProgrammingError::NoProgram)))
            && prog1 == prog0
    } else {
        (r matches Ok(ExecOutcome::Msg(m)) && m matches Some(msg) && msg@ == spec_cursor_message(
            prog1,
            "Start of program"@,
        )) && prog1.program_counter == (if prog0.program_counter > 0 {
            (prog0.program_counter - 1) as int
        } else {
            prog0.program@.len() - 1
        })
    }))
    &&& (cmd == "prgm"@ ==> (r matches Ok(ExecOutcome::Msg(m)) && (m matches Some(msg)
        && msg@ == "Program cleared"@)) && prog1.program@.len() == 0 && prog1.labels@.len() == 0 && prog1.program_counter == 0)
    &&& (cmd == "arc"@ ==> (r matches Ok(ExecOutcome::Msg(m)) && (m matches Some(msg)
        && msg@ == "ARC mode not implemented"@)) && stack1 == stack0 && input1 == crate::input::cleared())
    &&& (cmd != "+"@ && cmd != "-"@ && cmd != "*"@ && cmd != "/"@ && cmd != "^"@ && cmd
        != "pow"@ && cmd != "enter"@ && cmd != "swap"@ && cmd != "clx"@ && cmd != "clr"@
        && cmd != "chs"@ && cmd != "pi"@ && cmd != "eex"@ && cmd != "sto"@ && cmd
        != "rcl"@ && cmd != "fix"@ && cmd != "sci"@ && cmd != "eng"@ && cmd != "gto"@
        && cmd != "lbl"@ && cmd != "xeq"@ && cmd != "rtn"@ && cmd != "sst"@ && cmd
        != "bst"@ && cmd != "prgm"@ && cmd != "arc"@ && cmd != "!"@ && cmd != "sin"@
        && cmd != "cos"@ && cmd != "tan"@ && cmd != "asin"@ && cmd != "acos"@ && cmd
        != "atan"@ && cmd != "log"@ && cmd != "ln"@ && cmd != "exp"@ && cmd != "sqrt"@
        && cmd != "inv"@ ==> (r matches Err(CalculatorError::Command(
        CommandError::UnknownCommand(c),
    )) && c@ == cmd) && stack1 == stack0 && input1 == input0
        && prog1 == prog0 && display1 == display0
        && storage1 == storage0)
}

/// What a binary stack operation guarantees: on success the value lands in
/// X with the drop shape and the entry is cleared; on overflow nothing
/// moves.
pub open spec fn binary_op_ensures(
    res: Option<Value>,
    stack0: Stack,
    stack1: Stack,
    input0: crate::input::InputV,
    input1: crate::input::InputV,
    r: Result<ExecOutcome, CalculatorError>,
) -> bool {
    match res {
        Some(v) => r is Ok && stack1 == spec_drop(stack0, v) && input1
            == crate::input::cleared(),
        None => (r matches Err(CalculatorError::Stack(StackError::MathError(m))) && m@
            == "Overflow"@) && stack1 == stack0 && input1 == input0,
    }
}

/// A register number rendered for a storage message: zero-padded to two
/// digits.
pub open spec fn spec_register_label(reg: int) -> Seq<char> {
    if reg < 10 {
        seq!['0', spec_digit_char(reg)]
    } else {
        spec_u64_digits(reg)
    }
}

/// What a storage command guarantees: a present, in-range register is
/// written from X (STO) or recalled into X with a lift when the flag asks
/// for it (RCL), reporting the register stored or recalled; anything else
/// fails exactly as stated, with nothing changed.
pub open spec fn storage_ensures(
    cmd: Seq<char>,
    args: Option<Seq<Seq<char>>>,
    stack0: Stack,
    stack1: Stack,
    storage0: Seq<Value>,
    storage1: Seq<Value>,
    r: Result<ExecOutcome, CalculatorError>,
) -> bool {
    match args {
        None => (r matches Err(CalculatorError::Command(CommandError::MissingArgument(c))) && c@
            == spec_upper_seq(cmd)) && stack1 == stack0 && storage1 == storage0,
        Some(a) => if a.len() == 0 {
            (r matches Err(CalculatorError::Command(CommandError::MissingArgument(c))) && c@
                == spec_upper_seq(cmd)) && stack1 == stack0 && storage1 == storage0
        } else {
            match spec_register_arg(a[0]) {
                None => (r matches Err(CalculatorError::Storage(StorageError::InvalidRegister(n)))
                    && n == 0) && stack1 == stack0 && storage1 == storage0,
                Some(reg) => if reg >= storage0.len() {
                    (r matches Err(CalculatorError::Storage(StorageError::InvalidRegister(n)))
                        && n == reg) && stack1 == stack0 && storage1 == storage0
                } else if cmd == "sto"@ {
                    (r matches Ok(ExecOutcome::Msg(m)) && m matches Some(msg) && msg@ == "STO "@
                        + spec_register_label(reg)) && stack1 == stack0 && storage1
                        == storage0.update(reg, stack0.x)
                } else {
                    (r matches Ok(ExecOutcome::Msg(m)) && m matches Some(msg) && msg@ == "RCL "@
                        + spec_register_label(reg)) && storage1 == storage0 && stack1.x
                        == storage0[reg]
                        && stack1.lifted && (if stack0.lifted {
                        stack1.y == stack0.x && stack1.z == stack0.y && stack1.t == stack0.z
                    } else {
                        stack1.y == stack0.y && stack1.z == stack0.z && stack1.t == stack0.t
                    })
                },
            }
        },
    }
}

/// What a display-mode command guarantees: a single digit at most nine
/// sets the mode and count; anything else fails exactly as stated with
/// the formatter unchanged.
pub open spec fn display_ensures(
    cmd: Seq<char>,
    args: Option<Seq<Seq<char>>>,
    display0: DisplayFormatter,
    display1: DisplayFormatter,
    r: Result<ExecOutcome, CalculatorError>,
) -> bool {
    match args {
        None => (r matches Err(CalculatorError::Command(CommandError::MissingArgument(c))) && c@
            == spec_upper_seq(cmd)) && display1 == display0,
        Some(a) => if a.len() == 0 {
            (r matches Err(CalculatorError::Command(CommandError::MissingArgument(c))) && c@
                == spec_upper_seq(cmd)) && display1 == display0
        } else {
            match spec_digit_arg(a[0]) {
                None => (r matches Err(CalculatorError::Command(CommandError::InvalidArgument {
                    command: c,
                    argument: g,
                })) && c@ == spec_upper_seq(cmd) && g@ == a[0]) && display1 == display0,
                Some(d) => r is Ok && display1.digits == d && display1.mode == (if cmd == "fix"@ {
                    DisplayMode::Fix
                } else if cmd == "sci"@ {
                    DisplayMode::Sci
                } else {
                    DisplayMode::Eng
                }),
            }
        },
    }
}

/// What GTO guarantees: with an argument, the cursor relocation of
/// `goto_label`, an unknown label reported exactly; without, a missing
/// argument error and nothing changed.
pub open spec fn goto_ensures(
    args: Option<Seq<Seq<char>>>,
    prog0: ProgrammingMode,
    prog1: ProgrammingMode,
    r: Result<ExecOutcome, CalculatorError>,
) -> bool {
    match args {
        None => (r matches Err(CalculatorError::Command(CommandError::MissingArgument(c))) && c@
            == "GTO"@) && prog1 == prog0,
        Some(a) => if a.len() == 0 {
            (r matches Err(CalculatorError::Command(CommandError::MissingArgument(c))) && c@
                == "GTO"@) && prog1 == prog0
        } else {
            match spec_label_lookup(prog0.labels@, spec_upper_seq(a[0])) {
                None => (r matches Err(CalculatorError::Programming(
                    ProgrammingError::LabelNotFound(l),
                )) && l@ == a[0]) && prog1 == prog0,
                Some(t) => match spec_first_line_ge(prog0.program@, t as int) {
                    None => (r matches Err(CalculatorError::Programming(
                        ProgrammingError::LabelNotFound(l),
                    )) && l@ == a[0]) && prog1 == prog0,
                    Some(idx) => r is Ok && (if prog0.is_programming {
                        prog1 == (ProgrammingMode { edit_position: idx as usize, ..prog0 })
                    } else {
                        prog1 == (ProgrammingMode { program_counter: idx as usize, ..prog0 })
                    }),
                },
            }
        },
    }
}

/// What a validated unary math call guarantees at the dispatcher: a
/// domain failure is reported exactly with nothing moved; a computed
/// reciprocal lands in X with the lift flag set and the entry cleared; a
/// transcendental comes back as a pending request with nothing moved.
pub open spec fn math_fn_ensures(
    cmd: Seq<char>,
    stack0: Stack,
    stack1: Stack,
    input0: crate::input::InputV,
    input1: crate::input::InputV,
    r: Result<ExecOutcome, CalculatorError>,
) -> bool {
    let x = stack0.x;
    if cmd == "inv"@ {
        if x.spec_is_zero() {
            r matches Err(CalculatorError::Stack(StackError::DivisionByZero)) && stack1 == stack0
                && input1 == input0
        } else {
            match crate::value::spec_div(crate::math::spec_one(), x) {
                Some(v) => r is Ok && stack1 == (Stack { x: v, lifted: true, ..stack0 })
                    && input1 == crate::input::cleared(),
                None => (r matches Err(CalculatorError::Stack(StackError::MathError(m))) && m@
                    == "inv: Overflow"@) && stack1 == stack0 && input1 == input0,
            }
        }
    } else if cmd == "asin"@ || cmd == "acos"@ {
        if crate::math::spec_abs_gt_one(x) {
            (r matches Err(CalculatorError::Stack(StackError::MathError(m))) && m@
                == "Input must be in range [-1, 1]"@) && stack1 == stack0 && input1 == input0
        } else {
            (r matches Ok(ExecOutcome::NeedMath(MathRequest::Unary(f, v))) && v == x && (if cmd
                == "asin"@ {
                f is Asin
            } else {
                f is Acos
            })) && stack1 == stack0 && input1 == input0
        }
    } else if cmd == "log"@ || cmd == "ln"@ {
        if !crate::math::spec_is_pos(x) {
            (r matches Err(CalculatorError::Stack(StackError::MathError(m))) && (if cmd == "log"@ {
                m@ == "log requires positive input"@
            } else {
                m@ == "ln requires positive input"@
            })) && stack1 == stack0 && input1 == input0
        } else {
            (r matches Ok(ExecOutcome::NeedMath(MathRequest::Unary(f, v))) && v == x && (if cmd
                == "log"@ {
                f is Log
            } else {
                f is Ln
            })) && stack1 == stack0 && input1 == input0
        }
    } else if cmd == "sqrt"@ {
        if x.neg {
            (r matches Err(CalculatorError::Stack(StackError::MathError(m))) && m@
                == "sqrt requires non-negative input"@) && stack1 == stack0 && input1 == input0
        } else {
            (r matches Ok(ExecOutcome::NeedMath(MathRequest::Unary(f, v))) && v == x
                && f is Sqrt) && stack1 == stack0 && input1 == input0
        }
    } else {
        (r matches Ok(ExecOutcome::NeedMath(MathRequest::Unary(f, v))) && v == x && (if cmd
            == "sin"@ {
            f is Sin
        } else if cmd == "cos"@ {
            f is Cos
        } else if cmd == "tan"@ {
            f is Tan
        } else if cmd == "atan"@ {
            f is Atan
        } else {
            f is Exp
        })) && stack1 == stack0 && input1 == input0
    }
}

/// What the factorial command guarantees: rejected inputs fail exactly as
/// the factorial states them with nothing moved; an accepted one puts the
/// product in X with the lift flag set and the entry cleared.
pub open spec fn factorial_ensures(
    stack0: Stack,
    stack1: Stack,
    input0: crate::input::InputV,
    input1: crate::input::InputV,
    r: Result<ExecOutcome, CalculatorError>,
) -> bool {
    let x = stack0.x;
    let ok_int = x.spec_is_zero() || crate::math::value_as_small_int(x) is Some;
    let too_big = x.exp > 2 || (x.exp == 2 && x.mant > 170_000_000_000_000);
    if x.neg || too_big || !ok_int {
        (r matches Err(CalculatorError::Stack(StackError::MathError(_m)))) && stack1 == stack0
            && input1 == input0
    } else {
        let n = if x.spec_is_zero() {
            0
        } else {
            crate::math::value_as_small_int(x).unwrap()
        };
        match crate::math::spec_factorial(n as nat) {
            Some(v) => r is Ok && stack1 == (Stack { x: v, lifted: true, ..stack0 }) && input1
                == crate::input::cleared(),
            None => (r matches Err(CalculatorError::Stack(StackError::MathError(m))) && m@
                == "Factorial overflow"@) && stack1 == stack0 && input1 == input0,
        }
    }
}

/// What XEQ guarantees: with an argument, the jump of `goto_label` plus
/// the pre-call position pushed and run mode started; an unknown label
/// and a missing argument fail exactly, with nothing changed.
pub open spec fn xeq_ensures(
    args: Option<Seq<Seq<char>>>,
    prog0: ProgrammingMode,
    prog1: ProgrammingMode,
    r: Result<ExecOutcome, CalculatorError>,
) -> bool {
    match args {
        None => (r matches Err(CalculatorError::Command(CommandError::MissingArgument(c))) && c@
            == "XEQ"@) && prog1 == prog0,
        Some(a) => if a.len() == 0 {
            (r matches Err(CalculatorError::Command(CommandError::MissingArgument(c))) && c@
                == "XEQ"@) && prog1 == prog0
        } else {
            match spec_label_lookup(prog0.labels@, spec_upper_seq(a[0])) {
                None => (r matches Err(CalculatorError::Programming(
                    ProgrammingError::LabelNotFound(l),
                )) && l@ == a[0]) && prog1 == prog0,
                Some(t) => match spec_first_line_ge(prog0.program@, t as int) {
                    None => (r matches Err(CalculatorError::Programming(
                        ProgrammingError::LabelNotFound(l),
                    )) && l@ == a[0]) && prog1 == prog0,
                    Some(idx) => r is Ok && prog1.is_running && prog1.subroutine_stack@
                        == prog0.subroutine_stack@.push(prog0.program_counter) && (if
                    prog0.is_programming {
                        prog1.edit_position == idx && prog1.program_counter
                            == prog0.program_counter
                    } else {
                        prog1.program_counter == idx
                    }) && prog1.program@ == prog0.program@ && prog1.labels@ == prog0.labels@,
                },
            }
        },
    }
}

/// Round-trip STO/RCL: storing X at a register and then recalling the
/// same register yields the stored value back in X, and leaves Y, Z and T
/// shifted exactly as a lift would shift them when the lift flag was set
/// beforehand, and unchanged otherwise. The storage itself is untouched
/// by the recall.
pub proof fn lemma_sto_rcl_round_trip(
    s0: Stack,
    s1: Stack,
    s2: Stack,
    st0: Seq<Value>,
    st1: Seq<Value>,
    st2: Seq<Value>,
    a: Seq<Seq<char>>,
    r1: Result<ExecOutcome, CalculatorError>,
    r2: Result<ExecOutcome, CalculatorError>,
)
    requires
        a.len() > 0,
        ({
            match spec_register_arg(a[0]) {
                Some(reg) => 0 <= reg < st0.len(),
                None => false,
            }
        }),
        storage_ensures("sto"@, Some(a), s0, s1, st0, st1, r1),
        storage_ensures("rcl"@, Some(a), s1, s2, st1, st2, r2),
    ensures
        s2.x == s0.x,
        s2.lifted,
        s0.lifted ==> s2.y == s0.x && s2.z == s0.y && s2.t == s0.z,
        !s0.lifted ==> s2.y == s0.y && s2.z == s0.z && s2.t == s0.t,
        st2 == st1,
{
    reveal_strlit("sto");
    reveal_strlit("rcl");
    // Pin each literal's characters so distinct names are provably distinct.
    assert(("sto"@).len() == 3 && ("sto"@)[0] == 's' && ("sto"@)[1] == 't' && ("sto"@)[2] == 'o');
    assert(("rcl"@).len() == 3 && ("rcl"@)[0] == 'r' && ("rcl"@)[1] == 'c' && ("rcl"@)[2] == 'l');
    let reg = spec_register_arg(a[0]).unwrap();
    assert(st1 == st0.update(reg, s0.x));
    assert(st1[reg] == s0.x);
    assert(s1 == s0);
}

/// Idempotence of display-mode commands: issuing the same mode command
/// with the same argument twice in a row leaves exactly the formatter
/// state that issuing it once left, whether the argument was accepted or
/// rejected.
pub proof fn lemma_display_mode_idempotent(
    cmd: Seq<char>,
    args: Option<Seq<Seq<char>>>,
    d0: DisplayFormatter,
    d1: DisplayFormatter,
    d2: DisplayFormatter,
    r1: Result<ExecOutcome, CalculatorError>,
    r2: Result<ExecOutcome, CalculatorError>,
)
    requires
        display_ensures(cmd, args, d0, d1, r1),
        display_ensures(cmd, args, d1, d2, r2),
    ensures
        d2 == d1,
{
}

/// Execute a display-mode command: FIX, SCI or ENG with one digit 0-9.
fn execute_display_command(
    command: &str,
    args: Option<Vec<String>>,
    display: &mut DisplayFormatter,
) -> (r: Result<ExecOutcome, CalculatorError>)
    requires
        command@ == "fix"@ || command@ == "sci"@ || command@ == "eng"@,
        old(display).wf(),
    ensures
        display_ensures(command@, args.deep_view(), *old(display), *final(display), r),
        final(display).wf(),
        r is Ok ==> (r matches Ok(ExecOutcome::Msg(m)) && (m matches Some(msg) && msg@
            == spec_upper_seq(command@) + " "@ + spec_u64_digits(
            spec_digit_arg(args.deep_view().unwrap()[0]).unwrap(),
        ))),
{
    proof {
        reveal_strlit("fix");
        reveal_strlit("sci");
        reveal_strlit("eng");
    }
    let a = match args {
        Some(a) => a,
        None => {
            return Err(
                CalculatorError::Command(CommandError::MissingArgument(str_upper(command))),
            );
        },
    };
    if a.len() == 0 {
        return Err(CalculatorError::Command(CommandError::MissingArgument(str_upper(command))));
    }
    let tok = a[0].as_str();
    let ok = tok.unicode_len() == 1 && is_digit(tok.get_char(0));
    if !ok {
        return Err(
            CalculatorError::Command(
                CommandError::InvalidArgument {
                    command: str_upper(command),
                    argument: a[0].clone(),
                },
            ),
        );
    }
    let d = digit_val(tok.get_char(0));
    proof {
        let sv = a@[0]@;
        assert(sv.len() == 1);
        assert(sv.drop_last() =~= Seq::<char>::empty());
        assert(spec_digits_val(Seq::<char>::empty()) == 0);
        assert(spec_digits_val(sv) == spec_digits_val(sv.drop_last()) * 10 + spec_digit_val(
            sv.last(),
        ));
        assert(sv.last() == sv[0]);
        assert(spec_digits_val(sv) == spec_digit_val(sv[0]));
    }
    display.mode = if str_eq(command, "fix") {
        DisplayMode::Fix
    } else if str_eq(command, "sci") {
        DisplayMode::Sci
    } else {
        DisplayMode::Eng
    };
    display.digits = d as usize;
    let num = crate::text::u64_to_string(d);
    Ok(ExecOutcome::Msg(Some(str_upper(command).concat(" ").concat(num.as_str()))))
}

/// Execute STO or RCL against a two-digit register number.
fn execute_storage_command(
    command: &str,
    args: Option<Vec<String>>,
    stack: &mut Stack,
    storage: &mut Vec<Value>,
) -> (r: Result<ExecOutcome, CalculatorError>)
    requires
        command@ == "sto"@ || command@ == "rcl"@,
        old(storage)@.len() == NUM_STORAGE_REGISTERS,
        forall|i: int| 0 <= i < old(storage)@.len() ==> (#[trigger] old(storage)@[i]).wf(),
        old(stack).wf(),
    ensures
        storage_ensures(
            command@,
            args.deep_view(),
            *old(stack),
            *final(stack),
            old(storage)@,
            final(storage)@,
            r,
        ),
        final(stack).wf(),
        final(storage)@.len() == NUM_STORAGE_REGISTERS,
        forall|i: int| 0 <= i < final(storage)@.len() ==> (#[trigger] final(storage)@[i]).wf(),
{
    proof {
        reveal_strlit("sto");
        reveal_strlit("rcl");
    }
    let a = match args {
        Some(a) => a,
        None => {
            return Err(
                CalculatorError::Command(CommandError::MissingArgument(str_upper(command))),
            );
        },
    };
    if a.len() == 0 {
        return Err(CalculatorError::Command(CommandError::MissingArgument(str_upper(command))));
    }
    let register = match parse_register_arg(a[0].as_str()) {
        Some(n) => n,
        None => {
            return Err(CalculatorError::Storage(StorageError::InvalidRegister(0)));
        },
    };
    if register >= storage.len() as u64 {
        return Err(CalculatorError::Storage(StorageError::InvalidRegister(register as usize)));
    }
    let reg = register as usize;
    if str_eq(command, "sto") {
        storage.set(reg, stack.get_x());
        let num = two_digit_string(register);
        Ok(ExecOutcome::Msg(Some(String::from_str("STO ").concat(num.as_str()))))
    } else {
        if stack.should_lift() {
            stack.lift();
        }
        stack.set_x(storage[reg]);
        stack.set_lift_flag(true);
        let num = two_digit_string(register);
        Ok(ExecOutcome::Msg(Some(String::from_str("RCL ").concat(num.as_str()))))
    }
}

/// Execute a programming command: labels, jumps, subroutines, stepping
/// and program clearing.
fn execute_programming_command(
    command: &str,
    args: Option<Vec<String>>,
    programming: &mut ProgrammingMode,
) -> (r: Result<ExecOutcome, CalculatorError>)
    requires
        command@ == "lbl"@ || command@ == "gto"@ || command@ == "xeq"@ || command@ == "rtn"@
            || command@ == "sst"@ || command@ == "bst"@ || command@ == "prgm"@,
        old(programming).wf(),
    ensures
        final(programming).wf(),
        command@ == "gto"@ ==> goto_ensures(
            args.deep_view(),
            *old(programming),
            *final(programming),
            r,
        ),
        command@ == "xeq"@ ==> xeq_ensures(
            args.deep_view(),
            *old(programming),
            *final(programming),
            r,
        ),
        command@ == "lbl"@ ==> (if !old(programming).is_programming {
            r is Ok && *final(programming) == *old(programming)
        } else {
            match args.deep_view() {
                Option::Some(a) => if a.len() == 0 {
                    (r matches Err(CalculatorError::Command(CommandError::MissingArgument(c)))
                        && c@ == "LBL"@) && *final(programming) == *old(programming)
                } else {
                    r is Ok && add_instruction_ensures(
                        *old(programming),
                        *final(programming),
                        "LBL"@,
                        a,
                        old(programming).program@.len() < MAX_PROGRAM_LINES,
                    )
                },
                Option::None => (r matches Err(CalculatorError::Command(
                    CommandError::MissingArgument(c),
                )) && c@ == "LBL"@) && *final(programming) == *old(programming),
            }
        }),
        command@ == "rtn"@ && old(programming).is_programming ==> r is Ok
            && add_instruction_ensures(
            *old(programming),
            *final(programming),
            "RTN"@,
            Seq::empty(),
            old(programming).program@.len() < MAX_PROGRAM_LINES,
        ),
        command@ == "rtn"@ ==> r is Ok && (!old(programming).is_programming ==> (if old(programming).subroutine_stack@.len() > 0 {
            final(programming).program_counter == old(programming).subroutine_stack@.last()
                && final(programming).subroutine_stack@ == old(programming).subroutine_stack@.subrange(0, old(programming).subroutine_stack@.len() - 1)
        } else {
            !final(programming).is_running && *final(programming) == (ProgrammingMode {
                is_running: false,
                subroutine_stack: final(programming).subroutine_stack,
                ..*old(programming)
            })
        })),
        command@ == "sst"@ ==> (if old(programming).program@.len() == 0 {
            (r matches Err(CalculatorError::Programming(ProgrammingError::NoProgram)))
                && *final(programming) == *old(programming)
        } else {
            (r matches Ok(ExecOutcome::Msg(m)) && m matches Some(msg) && msg@
                == spec_cursor_message(*final(programming), "End of program"@)) && final(programming).program_counter == (old(programming).program_counter + 1) % (old(programming).program@.len() as int)
        }),
        command@ == "bst"@ ==> (if old(programming).program@.len() == 0 {
            (r matches Err(CalculatorError::Programming(ProgrammingError::NoProgram)))
                && *final(programming) == *old(programming)
        } else {
            (r matches Ok(ExecOutcome::Msg(m)) && m matches Some(msg) && msg@
                == spec_cursor_message(*final(programming), "Start of program"@)) && final(programming).program_counter == (if old(programming).program_counter > 0 {
                (old(programming).program_counter - 1) as int
            } else {
                old(programming).program@.len() - 1
            })
        }),
        command@ == "prgm"@ ==> (r matches Ok(ExecOutcome::Msg(m)) && (m matches Some(msg)
            && msg@ == "Program cleared"@)) && final(programming).program@.len() == 0 && final(programming).labels@.len() == 0 && final(programming).program_counter == 0,
{
    proof {
        reveal_strlit("lbl");
        reveal_strlit("gto");
        reveal_strlit("xeq");
        reveal_strlit("rtn");
        reveal_strlit("sst");
        reveal_strlit("bst");
        reveal_strlit("prgm");
        // Pin each literal's characters so distinct names are provably distinct.
        assert(("lbl"@).len() == 3 && ("lbl"@)[0] == 'l' && ("lbl"@)[1] == 'b' && ("lbl"@)[2]
            == 'l');
        assert(("gto"@).len() == 3 && ("gto"@)[0] == 'g' && ("gto"@)[1] == 't' && ("gto"@)[2]
            == 'o');
        assert(("xeq"@).len() == 3 && ("xeq"@)[0] == 'x' && ("xeq"@)[1] == 'e' && ("xeq"@)[2]
            == 'q');
        assert(("rtn"@).len() == 3 && ("rtn"@)[0] == 'r' && ("rtn"@)[1] == 't' && ("rtn"@)[2]
            == 'n');
        assert(("sst"@).len() == 3 && ("sst"@)[0] == 's' && ("sst"@)[1] == 's' && ("sst"@)[2]
            == 't');
        assert(("bst"@).len() == 3 && ("bst"@)[0] == 'b' && ("bst"@)[1] == 's' && ("bst"@)[2]
            == 't');
        assert(("prgm"@).len() == 4 && ("prgm"@)[0] == 'p' && ("prgm"@)[1] == 'r' && ("prgm"@)[2]
            == 'g' && ("prgm"@)[3] == 'm');
    }
    if str_eq(command, "lbl") {
        if programming.is_programming {
            let a = match args {
                Some(a) => a,
                None => {
                    return Err(
                        CalculatorError::Command(
                            CommandError::MissingArgument(String::from_str("LBL")),
                        ),
                    );
                },
            };
            if a.len() == 0 {
                return Err(
                    CalculatorError::Command(
                        CommandError::MissingArgument(String::from_str("LBL")),
                    ),
                );
            }
            programming.add_instruction("LBL", Some(a), "LBL");
            Ok(ExecOutcome::Msg(None))
        } else {
            Ok(ExecOutcome::Msg(None))
        }
    } else if str_eq(command, "gto") {
        let a = match args {
            Some(a) => a,
            None => {
                return Err(
                    CalculatorError::Command(CommandError::MissingArgument(String::from_str("GTO"))),
                );
            },
        };
        if a.len() == 0 {
            return Err(
                CalculatorError::Command(CommandError::MissingArgument(String::from_str("GTO"))),
            );
        }
        if programming.goto_label(a[0].as_str()) {
            Ok(ExecOutcome::Msg(None))
        } else {
            Err(CalculatorError::Programming(ProgrammingError::LabelNotFound(a[0].clone())))
        }
    } else if str_eq(command, "xeq") {
        let a = match args {
            Some(a) => a,
            None => {
                return Err(
                    CalculatorError::Command(CommandError::MissingArgument(String::from_str("XEQ"))),
                );
            },
        };
        if a.len() == 0 {
            return Err(
                CalculatorError::Command(CommandError::MissingArgument(String::from_str("XEQ"))),
            );
        }
        if programming.execute_subroutine(a[0].as_str()) {
            programming.is_running = true;
            Ok(ExecOutcome::Msg(None))
        } else {
            Err(CalculatorError::Programming(ProgrammingError::LabelNotFound(a[0].clone())))
        }
    } else if str_eq(command, "rtn") {
        if programming.is_programming {
            programming.add_instruction("RTN", None, "RTN");
        } else {
            programming.return_from_subroutine();
        }
        Ok(ExecOutcome::Msg(None))
    } else if str_eq(command, "sst") {
        if programming.program.len() == 0 {
            return Err(CalculatorError::Programming(ProgrammingError::NoProgram));
        }
        programming.program_counter = (programming.program_counter + 1) % programming.program.len();
        match programming.get_current_instruction() {
            Some(instr) => {
                let line = crate::programming::line_prefix(instr.line_number);
                let shown = instr.display_string();
                Ok(ExecOutcome::Msg(Some(line.concat(" ").concat(shown.as_str()))))
            },
            None => Ok(ExecOutcome::Msg(Some(String::from_str("End of program")))),
        }
    } else if str_eq(command, "bst") {
        if programming.program.len() == 0 {
            return Err(CalculatorError::Programming(ProgrammingError::NoProgram));
        }
        if programming.program_counter > 0 {
            programming.program_counter = programming.program_counter - 1;
        } else {
            programming.program_counter = programming.program.len() - 1;
        }
        match programming.get_current_instruction() {
            Some(instr) => {
                let line = crate::programming::line_prefix(instr.line_number);
                let shown = instr.display_string();
                Ok(ExecOutcome::Msg(Some(line.concat(" ").concat(shown.as_str()))))
            },
            None => Ok(ExecOutcome::Msg(Some(String::from_str("Start of program")))),
        }
    } else {
        programming.clear_program();
        Ok(ExecOutcome::Msg(Some(String::from_str("Program cleared"))))
    }
}

} // verus!
