use crate::text::{decimal, owned, push_decimal, push_text};
use crate::token::Token;
use vstd::prelude::*;

verus! {

/// A fault that ends the run: it has one diagnostic line and the exit status
/// of the process that reports it.
pub trait WindError {
    /// The diagnostic line, without a line break.
    spec fn diagnostic(&self) -> Seq<char>;

    /// The exit status of a run that ended in this fault.
    spec fn status(&self) -> int;

    /// The diagnostic line, for the error stream.
    fn report(&self) -> (line: String)
        ensures
            line@ == self.diagnostic(),
    ;

    /// The exit status of a run that ended in this fault.
    fn exit_code(&self) -> (code: i32)
        ensures
            code == self.status(),
    ;
}

/// `[line L]: ` for the line number `L`.
pub open spec fn line_prefix(line: int) -> Seq<char> {
    "[line "@ + decimal(line) + "]: "@
}

/// The start of a diagnostic line: the line number in brackets.
fn start_report(line: i32) -> (text: String)
    ensures
        text@ == line_prefix(line as int),
{
    let mut text = owned("[line ");
    push_decimal(&mut text, line as i64);
    push_text(&mut text, "]: ");
    text
}

/// A fault met while a program runs, at the token it is blamed on.
#[derive(Debug)]
pub struct RuntimeError {
    pub token: Token,
    pub message: String,
}

impl RuntimeError {
    pub fn new(token: Token, message: String) -> (error: RuntimeError)
        ensures
            error.token == token,
            error.message == message,
    {
        RuntimeError { token, message }
    }
}

impl Clone for RuntimeError {
    fn clone(&self) -> (copy: RuntimeError)
        ensures
            copy == *self,
    {
        RuntimeError { token: self.token.clone(), message: self.message.clone() }
    }
}

impl WindError for RuntimeError {
    open spec fn diagnostic(&self) -> Seq<char> {
        line_prefix(self.token.line as int) + "near '"@ + self.token.lexeme@ + "' "@
            + self.message@
    }

    open spec fn status(&self) -> int {
        1
    }

    fn report(&self) -> (line: String) {
        let mut line = start_report(self.token.line);
        push_text(&mut line, "near '");
        push_text(&mut line, self.token.lexeme.as_str());
        push_text(&mut line, "' ");
        push_text(&mut line, self.message.as_str());
        line
    }

    fn exit_code(&self) -> (code: i32) {
        1
    }
}

/// A violation of the grammar, at the token where it was found.
#[derive(Debug)]
pub struct ParseError {
    pub token: Token,
    pub message: String,
}

impl ParseError {
    pub fn new(token: Token, message: String) -> (error: ParseError)
        ensures
            error.token == token,
            error.message == message,
    {
        ParseError { token, message }
    }
}

impl WindError for ParseError {
    open spec fn diagnostic(&self) -> Seq<char> {
        line_prefix(self.token.line as int) + self.message@
    }

    open spec fn status(&self) -> int {
        1
    }

    fn report(&self) -> (line: String) {
        let mut line = start_report(self.token.line);
        push_text(&mut line, self.message.as_str());
        line
    }

    fn exit_code(&self) -> (code: i32) {
        1
    }
}

/// Malformed lexical input, at the line where it was found.
#[derive(Debug)]
pub struct ScannerError {
    pub line: i32,
    pub message: String,
}

impl ScannerError {
    pub fn new(line: i32, message: String) -> (error: ScannerError)
        ensures
            error.line == line,
            error.message == message,
    {
        ScannerError { line, message }
    }
}

impl WindError for ScannerError {
    open spec fn diagnostic(&self) -> Seq<char> {
        line_prefix(self.line as int) + self.message@
    }

    open spec fn status(&self) -> int {
        65
    }

    fn report(&self) -> (line: String) {
        let mut line = start_report(self.line);
        push_text(&mut line, self.message.as_str());
        line
    }

    fn exit_code(&self) -> (code: i32) {
        65
    }
}

} // verus!
