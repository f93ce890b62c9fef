//! Diagnostics: the runtime errors of the evaluator and how they read.

use crate::text::{decimal, decimal_text};
use crate::tokens::{Token, TokenView};
use vstd::prelude::*;
use vstd::string::StringExecFns;

verus! {

/// The line of a diagnostic of the scanner: `[line N] Error LOCATION: MESSAGE`.
pub open spec fn report_text(line: u32, location: Seq<char>, message: Seq<char>) -> Seq<char> {
    "[line "@ + decimal(line as nat) + "] Error "@ + location + ": "@ + message
}

/// The diagnostic of an error on `line` without a location.
pub fn error(line: u32, message: &str) -> (s: String)
    ensures
        s@ == report_text(line, Seq::<char>::empty(), message@),
{
    let s = report(line, "", message);
    proof {
        reveal_strlit("");
        assert(""@ =~= Seq::<char>::empty());
    }
    s
}

/// The diagnostic of an error on `line` at `location`.
pub fn report(line: u32, location: &str, message: &str) -> (s: String)
    ensures
        s@ == report_text(line, location@, message@),
{
    let mut s = "[line ".to_owned();
    s.append(decimal_text(line as usize).as_str());
    s.append("] Error ");
    s.append(location);
    s.append(": ");
    s.append(message);
    s
}

/// A runtime error. Each carries the token at which it arose.
#[derive(Debug)]
pub enum Error {
    /// Unary `-` on something that is no number.
    ExpectedNumber { operator: Token },
    /// Arithmetic or comparison on something that is no number.
    ExpectedNumbers { operator: Token },
    /// `+` on operands that are neither two numbers nor two strings.
    ExpectedNumbersOrStrings { operator: Token },
    /// A name that no frame in scope defines was read or assigned.
    UndefinedVariable { name: String, token: Token },
    /// Something that is no callable was called.
    BadCall { paren: Token },
    /// A call with more or fewer arguments than the callable takes.
    WrongNumberOfArgs { paren: Token, expected: usize, got: usize },
    /// A statement that could not be parsed was reached.
    Parsing { token: Token, err: String },
}

pub enum ErrorView {
    ExpectedNumber { operator: TokenView },
    ExpectedNumbers { operator: TokenView },
    ExpectedNumbersOrStrings { operator: TokenView },
    UndefinedVariable { name: Seq<char>, token: TokenView },
    BadCall { paren: TokenView },
    WrongNumberOfArgs { paren: TokenView, expected: nat, got: nat },
    Parsing { token: TokenView, err: Seq<char> },
}

impl ErrorView {
    /// The line of the token at which the error arose.
    pub open spec fn line(self) -> u32 {
        match self {
            ErrorView::ExpectedNumber { operator } => operator.line,
            ErrorView::ExpectedNumbers { operator } => operator.line,
            ErrorView::ExpectedNumbersOrStrings { operator } => operator.line,
            ErrorView::UndefinedVariable { name, token } => token.line,
            ErrorView::BadCall { paren } => paren.line,
            ErrorView::WrongNumberOfArgs { paren, expected, got } => paren.line,
            ErrorView::Parsing { token, err } => token.line,
        }
    }

    /// What went wrong, in words.
    pub open spec fn text(self) -> Seq<char> {
        match self {
            ErrorView::ExpectedNumber { operator } => "Operand must be a number."@,
            ErrorView::ExpectedNumbers { operator } => "Operands must be numbers."@,
            ErrorView::ExpectedNumbersOrStrings { operator } =>
                "Operands must be two numbers or two strings."@,
            ErrorView::UndefinedVariable { name, token } => "Undefined variable "@ + name + "."@,
            ErrorView::BadCall { paren } => "Can only call functions and classes."@,
            ErrorView::WrongNumberOfArgs { paren, expected, got } => "Expected "@ + decimal(
                expected,
            ) + " arguments but got "@ + decimal(got) + "."@,
            ErrorView::Parsing { token, err } =>
                "The program terminated due to a syntax error: "@ + err,
        }
    }

    /// The diagnostic line, without its terminator: `[Line N]: MESSAGE`.
    pub open spec fn message(self) -> Seq<char> {
        "[Line "@ + decimal(self.line() as nat) + "]: "@ + self.text()
    }
}

impl View for Error {
    type V = ErrorView;

    open spec fn view(&self) -> ErrorView {
        match self {
            Error::ExpectedNumber { operator } => ErrorView::ExpectedNumber { operator: operator@ },
            Error::ExpectedNumbers { operator } => ErrorView::ExpectedNumbers {
                operator: operator@,
            },
            Error::ExpectedNumbersOrStrings { operator } => ErrorView::ExpectedNumbersOrStrings {
                operator: operator@,
            },
            Error::UndefinedVariable { name, token } => ErrorView::UndefinedVariable {
                name: name@,
                token: token@,
            },
            Error::BadCall { paren } => ErrorView::BadCall { paren: paren@ },
            Error::WrongNumberOfArgs { paren, expected, got } => ErrorView::WrongNumberOfArgs {
                paren: paren@,
                expected: *expected as nat,
                got: *got as nat,
            },
            Error::Parsing { token, err } => ErrorView::Parsing { token: token@, err: err@ },
        }
    }
}

impl Error {
    /// The line of the token at which the error arose.
    pub fn line(&self) -> (line: u32)
        ensures
            line == self@.line(),
    {
        match self {
            Error::ExpectedNumber { operator } => operator.line,
            Error::ExpectedNumbers { operator } => operator.line,
            Error::ExpectedNumbersOrStrings { operator } => operator.line,
            Error::UndefinedVariable { token, .. } => token.line,
            Error::BadCall { paren } => paren.line,
            Error::WrongNumberOfArgs { paren, .. } => paren.line,
            Error::Parsing { token, .. } => token.line,
        }
    }

    /// What went wrong, in words.
    pub fn text(&self) -> (s: String)
        ensures
            s@ == self@.text(),
    {
        match self {
            Error::ExpectedNumber { .. } => "Operand must be a number.".to_owned(),
            Error::ExpectedNumbers { .. } => "Operands must be numbers.".to_owned(),
            Error::ExpectedNumbersOrStrings { .. } =>
                "Operands must be two numbers or two strings.".to_owned(),
            Error::UndefinedVariable { name, .. } => {
                let mut s = "Undefined variable ".to_owned();
                s.append(name.as_str());
                s.append(".");
                s
            },
            Error::BadCall { .. } => "Can only call functions and classes.".to_owned(),
            Error::WrongNumberOfArgs { expected, got, .. } => {
                let mut s = "Expected ".to_owned();
                s.append(decimal_text(*expected).as_str());
                s.append(" arguments but got ");
                s.append(decimal_text(*got).as_str());
                s.append(".");
                s
            },
            Error::Parsing { err, .. } => {
                let mut s = "The program terminated due to a syntax error: ".to_owned();
                s.append(err.as_str());
                s
            },
        }
    }

    /// The diagnostic line, without its terminator: `[Line N]: MESSAGE`.
    pub fn message(&self) -> (s: String)
        ensures
            s@ == self@.message(),
    {
        let mut s = "[Line ".to_owned();
        s.append(decimal_text(self.line() as usize).as_str());
        s.append("]: ");
        s.append(self.text().as_str());
        s
    }
}

} // verus!
