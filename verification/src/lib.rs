//! Keystroke-level emulation of an HP-41C RPN calculator: a four-register
//! stack with lift/drop semantics, digit-by-digit number entry with EEX
//! exponent mode, a registry-driven incremental command parser, display
//! formatting in FIX/SCI/ENG modes, storage registers, and a minimal
//! programmable mode with labels, goto, and subroutine calls.
//!
//! Numeric values are held as `Value`, a sign/mantissa/exponent decimal
//! representation, so that all arithmetic and all state transitions are
//! verified. Transcendental functions have no decimal implementation here:
//! the calculator hands them out as pending requests that a host answers
//! through `apply_math_result`.

pub mod calculator;
pub mod commands;
pub mod display;
pub mod error;
pub mod execution;
pub mod input;
pub mod math;
pub mod parser;
pub mod programming;
pub mod registry;
pub mod stack;
pub mod text;
pub mod value;

pub use calculator::HP41CCalculator;
pub use commands::{get_all_commands, get_command_spec, is_valid_command};
pub use display::{DisplayFormatter, DisplayMode};
pub use error::{CalculatorError, CalculatorResult, CommandError, InputError, ProgrammingError,
    StackError, StorageError};
pub use execution::{ExecOutcome, MathRequest, execute_command};
pub use input::InputState;
pub use math::{MathEval, MathFunction, execute_math_function, factorial};
pub use parser::{CommandParser, ParseResult};
pub use programming::{ProgramInstruction, ProgrammingMode};
pub use registry::{ArgumentPattern, AutoExecuteRule, CommandRegistry, CommandSpec};
pub use stack::Stack;
pub use value::Value;
