//! Error types for the calculator.
//!
//! Every failure surfaces as one of these tagged values; none of them is
//! fatal, and an operation that fails never leaves partially applied state
//! behind. Human-readable text comes from the `message` methods.

use crate::text::{chars_to_string, i64_to_string, spec_i64_digits, u64_to_string,
    spec_u64_digits};
use vstd::prelude::*;
use vstd::string::*;

verus! {

/// Main error type for calculator operations.
#[derive(Clone, Debug, PartialEq, Eq)]
pub enum CalculatorError {
    /// Stack-related errors.
    Stack(StackError),
    /// Input/number entry errors.
    Input(InputError),
    /// Command execution errors.
    Command(CommandError),
    /// Programming mode errors.
    Programming(ProgrammingError),
    /// Storage register errors.
    Storage(StorageError),
}

/// Errors that can occur during stack operations.
#[derive(Clone, Debug, PartialEq, Eq)]
pub enum StackError {
    /// Division by zero attempted.
    DivisionByZero,
    /// Mathematical error (invalid or overflowing result).
    MathError(String),
    /// Stack underflow (not enough values for operation).
    Underflow,
}

/// Errors that can occur during input processing.
#[derive(Clone, Debug, PartialEq, Eq)]
pub enum InputError {
    /// Invalid number format.
    InvalidNumber(String),
    /// Number too large to represent.
    Overflow,
    /// Invalid digit in current mode.
    InvalidDigit(char),
}

/// Errors that can occur during command execution.
#[derive(Clone, Debug, PartialEq, Eq)]
pub enum CommandError {
    /// Unknown command.
    UnknownCommand(String),
    /// Command requires arguments but none provided.
    MissingArgument(String),
    /// Invalid argument for command.
    InvalidArgument { command: String, argument: String },
    /// Command not allowed in current mode.
    NotAllowed(String),
}

/// Errors specific to programming mode.
#[derive(Clone, Debug, PartialEq, Eq)]
pub enum ProgrammingError {
    /// Label not found.
    LabelNotFound(String),
    /// Program memory full.
    MemoryFull,
    /// No program in memory.
    NoProgram,
    /// Invalid line number.
    InvalidLine(i32),
    /// Stack overflow in subroutine calls.
    SubroutineStackOverflow,
}

/// Errors related to storage registers.
#[derive(Clone, Debug, PartialEq, Eq)]
pub enum StorageError {
    /// Invalid register number.
    InvalidRegister(usize),
    /// Register arithmetic error.
    ArithmeticError(String),
}

/// Type alias for Results in the calculator.
pub type CalculatorResult<T> = Result<T, CalculatorError>;

impl StackError {
    /// The rendered text of this error.
    pub open spec fn spec_message(self) -> Seq<char> {
        match self {
            StackError::DivisionByZero => "Division by zero"@,
            StackError::MathError(msg) => "Math error: "@ + msg@,
            StackError::Underflow => "Stack underflow"@,
        }
    }

    /// The rendered text of this error.
    pub fn message(&self) -> (r: String)
        ensures
            r@ == self.spec_message(),
    {
        match self {
            StackError::DivisionByZero => String::from_str("Division by zero"),
            StackError::MathError(msg) => String::from_str("Math error: ").concat(msg.as_str()),
            StackError::Underflow => String::from_str("Stack underflow"),
        }
    }
}

impl InputError {
    /// The rendered text of this error.
    pub open spec fn spec_message(self) -> Seq<char> {
        match self {
            InputError::InvalidNumber(s) => "Invalid number: "@ + s@,
            InputError::Overflow => "Number overflow"@,
            InputError::InvalidDigit(c) => "Invalid digit: '"@ + seq![c] + "'"@,
        }
    }

    /// The rendered text of this error.
    pub fn message(&self) -> (r: String)
        ensures
            r@ == self.spec_message(),
    {
        match self {
            InputError::InvalidNumber(s) => String::from_str("Invalid number: ").concat(
                s.as_str(),
            ),
            InputError::Overflow => String::from_str("Number overflow"),
            InputError::InvalidDigit(c) => {
                let mut v: Vec<char> = Vec::new();
                v.push(*c);
                proof {
                    assert(v@ =~= seq![*c]);
                }
                let mid = chars_to_string(&v);
                String::from_str("Invalid digit: '").concat(mid.as_str()).concat("'")
            },
        }
    }
}

impl CommandError {
    /// The rendered text of this error.
    pub open spec fn spec_message(self) -> Seq<char> {
        match self {
            CommandError::UnknownCommand(cmd) => "Unknown command: "@ + cmd@,
            CommandError::MissingArgument(cmd) => cmd@ + " requires argument"@,
            CommandError::InvalidArgument { command, argument } => "Invalid argument '"@
                + argument@ + "' for "@ + command@,
            CommandError::NotAllowed(msg) => "Not allowed: "@ + msg@,
        }
    }

    /// The rendered text of this error.
    pub fn message(&self) -> (r: String)
        ensures
            r@ == self.spec_message(),
    {
        match self {
            CommandError::UnknownCommand(cmd) => String::from_str("Unknown command: ").concat(
                cmd.as_str(),
            ),
            CommandError::MissingArgument(cmd) => cmd.clone().concat(" requires argument"),
            CommandError::InvalidArgument { command, argument } => String::from_str(
                "Invalid argument '",
            ).concat(argument.as_str()).concat("' for ").concat(command.as_str()),
            CommandError::NotAllowed(msg) => String::from_str("Not allowed: ").concat(
                msg.as_str(),
            ),
        }
    }
}

impl ProgrammingError {
    /// The rendered text of this error.
    pub open spec fn spec_message(self) -> Seq<char> {
        match self {
            ProgrammingError::LabelNotFound(lbl) => "Label "@ + lbl@ + " not found"@,
            ProgrammingError::MemoryFull => "Program memory full"@,
            ProgrammingError::NoProgram => "No program in memory"@,
            ProgrammingError::InvalidLine(n) => "Invalid line number: "@ + spec_i64_digits(
                n as int,
            ),
            ProgrammingError::SubroutineStackOverflow => "Subroutine stack overflow"@,
        }
    }

    /// The rendered text of this error.
    pub fn message(&self) -> (r: String)
        ensures
            r@ == self.spec_message(),
    {
        match self {
            ProgrammingError::LabelNotFound(lbl) => String::from_str("Label ").concat(
                lbl.as_str(),
            ).concat(" not found"),
            ProgrammingError::MemoryFull => String::from_str("Program memory full"),
            ProgrammingError::NoProgram => String::from_str("No program in memory"),
            ProgrammingError::InvalidLine(n) => {
                let num = i64_to_string(*n as i64);
                String::from_str("Invalid line number: ").concat(num.as_str())
            },
            ProgrammingError::SubroutineStackOverflow => String::from_str(
                "Subroutine stack overflow",
            ),
        }
    }
}

impl StorageError {
    /// The rendered text of this error.
    pub open spec fn spec_message(self) -> Seq<char> {
        match self {
            StorageError::InvalidRegister(n) => "Invalid register: "@ + spec_u64_digits(n as int),
            StorageError::ArithmeticError(msg) => "Register arithmetic: "@ + msg@,
        }
    }

    /// The rendered text of this error.
    pub fn message(&self) -> (r: String)
        ensures
            r@ == self.spec_message(),
    {
        match self {
            StorageError::InvalidRegister(n) => {
                let num = u64_to_string(*n as u64);
                String::from_str("Invalid register: ").concat(num.as_str())
            },
            StorageError::ArithmeticError(msg) => String::from_str("Register arithmetic: ").concat(
                msg.as_str(),
            ),
        }
    }
}

impl CalculatorError {
    /// The rendered text of this error.
    pub open spec fn spec_message(self) -> Seq<char> {
        match self {
            CalculatorError::Stack(e) => "Stack error: "@ + e.spec_message(),
            CalculatorError::Input(e) => "Input error: "@ + e.spec_message(),
            CalculatorError::Command(e) => "Command error: "@ + e.spec_message(),
            CalculatorError::Programming(e) => "Programming error: "@ + e.spec_message(),
            CalculatorError::Storage(e) => "Storage error: "@ + e.spec_message(),
        }
    }

    /// The rendered text of this error.
    pub fn message(&self) -> (r: String)
        ensures
            r@ == self.spec_message(),
    {
        match self {
            CalculatorError::Stack(e) => String::from_str("Stack error: ").concat(
                e.message().as_str(),
            ),
            CalculatorError::Input(e) => String::from_str("Input error: ").concat(
                e.message().as_str(),
            ),
            CalculatorError::Command(e) => String::from_str("Command error: ").concat(
                e.message().as_str(),
            ),
            CalculatorError::Programming(e) => String::from_str("Programming error: ").concat(
                e.message().as_str(),
            ),
            CalculatorError::Storage(e) => String::from_str("Storage error: ").concat(
                e.message().as_str(),
            ),
        }
    }
}

} // verus!
