use vstd::prelude::*;

use crate::token::Token;

verus! {

/// Code of an error raised where a required token was missing.
pub const EXPECTED_TOKEN: u32 = 69;

/// Code of an error raised where no expression could start.
pub const EXPECTED_EXPRESSION: u32 = 42;

/// Code of an error raised when running a program.
pub const RUNTIME: u32 = 70;

/// An error with the source line it concerns, a numeric class and a message.
#[derive(Debug)]
pub struct LoxError {
    pub line: usize,
    pub code: u32,
    pub message: String,
}

/// The mathematical form of an error.
pub ghost struct ErrorView {
    pub line: usize,
    pub code: u32,
    pub message: Seq<char>,
}

impl View for LoxError {
    type V = ErrorView;

    open spec fn view(&self) -> ErrorView {
        ErrorView { line: self.line, code: self.code, message: self.message@ }
    }
}

impl LoxError {
    pub fn new(line: usize, code: u32, message: String) -> (r: LoxError)
        ensures
            r.line == line,
            r.code == code,
            r.message == message,
    {
        LoxError { line, code, message }
    }

    /// A runtime error at the token's line.
    pub fn from_token(token: &Token, message: String) -> (r: LoxError)
        ensures
            r.line == token.line,
            r.code == RUNTIME,
            r.message == message,
    {
        LoxError { line: token.line, code: RUNTIME, message }
    }
}

} // verus!
