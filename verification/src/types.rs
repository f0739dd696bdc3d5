use crate::ast::Stmt;
use crate::error::RuntimeError;
use crate::interpreter::calls::calling;
use crate::interpreter::machine::{fits, Kind};
use crate::interpreter::Interpreter;
use crate::text::{digits, owned, push_digits, push_text};
use crate::token::Token;
use std::rc::Rc;
use vstd::prelude::*;

verus! {

/// The behaviour behind a native function value.
#[derive(Debug, PartialEq, Eq, Clone, Copy, Structural)]
pub enum NativeKind {
    Print,
    PrintLn,
    Input,
    InputPrompt,
    Int,
    Str,
}

/// A runtime value. A number is held as the bit pattern of a single-precision
/// IEEE 754 value; its arithmetic and its text are the host's to give.
#[derive(Debug)]
pub enum LiteralType {
    Nil,
    Number(u32),
    String(String),
    Bool(bool),
    /// A user function: its declaration and the scope it was declared in.
    Function { declaration: Rc<Stmt>, closure: usize },
    NativeFunction { name: String, arity: usize, func: NativeKind },
}

/// `Rc::clone`: a second handle to the same shared value, which is equal to
/// the first.
#[verifier::external_body]
pub(crate) fn share<T>(handle: &Rc<T>) -> (other: Rc<T>)
    ensures
        other == *handle,
{
    Rc::clone(handle)
}

impl Clone for LiteralType {
    fn clone(&self) -> (copy: LiteralType)
        ensures
            copy == *self,
    {
        match self {
            LiteralType::Nil => LiteralType::Nil,
            LiteralType::Number(bits) => LiteralType::Number(*bits),
            LiteralType::String(text) => LiteralType::String(text.clone()),
            LiteralType::Bool(value) => LiteralType::Bool(*value),
            LiteralType::Function { declaration, closure } => LiteralType::Function {
                declaration: share(declaration),
                closure: *closure,
            },
            LiteralType::NativeFunction { name, arity, func } => LiteralType::NativeFunction {
                name: name.clone(),
                arity: *arity,
                func: *func,
            },
        }
    }
}

/// The name that a function was declared under; nothing where the
/// declaration is no function's.
pub open spec fn function_name(declaration: Stmt) -> Seq<char> {
    match declaration {
        Stmt::FunctionDecl { name, params, body } => name.lexeme@,
        _ => Seq::empty(),
    }
}

/// The text form of a value that is no number.
pub open spec fn display(value: LiteralType) -> Seq<char> {
    match value {
        LiteralType::Nil => "nil"@,
        LiteralType::Number(_) => Seq::empty(),
        LiteralType::String(text) => text@,
        LiteralType::Bool(value) => if value {
            "true"@
        } else {
            "false"@
        },
        LiteralType::Function { declaration, closure } => "<fn "@ + function_name(*declaration)
            + ">"@,
        LiteralType::NativeFunction { name, arity, func } => "<fn "@ + name@ + ">"@,
    }
}

/// The number of arguments that a value takes when it is called; `None` for a
/// value that cannot be called.
pub open spec fn arity_of(callee: LiteralType) -> Option<usize> {
    match callee {
        LiteralType::Function { declaration, closure } => match *declaration {
            Stmt::FunctionDecl { name, params, body } => Some(params.len()),
            _ => None,
        },
        LiteralType::NativeFunction { name, arity, func } => Some(arity),
        _ => None,
    }
}

/// The message of a call with the wrong number of arguments.
pub open spec fn arity_message(expected: nat, got: nat) -> Seq<char> {
    "expected "@ + digits(expected) + " arguments but got "@ + digits(got)
}

/// The fault of a call with the wrong number of arguments, blamed on the
/// call's closing parenthesis.
pub fn arity_mismatch(paren: &Token, expected: usize, got: usize) -> (error: RuntimeError)
    ensures
        error.token == *paren,
        error.message@ == arity_message(expected as nat, got as nat),
{
    let mut message = owned("expected ");
    push_digits(&mut message, expected as u64);
    push_text(&mut message, " arguments but got ");
    push_digits(&mut message, got as u64);
    RuntimeError::new(paren.clone(), message)
}

impl LiteralType {
    /// The text form of the value; `None` for a number, whose text is the
    /// host's to give.
    pub fn text(&self) -> (text: Option<String>)
        ensures
            match *self {
                LiteralType::Number(_) => text is None,
                _ => text is Some && text->0@ == display(*self),
            },
    {
        match self {
            LiteralType::Nil => Some(owned("nil")),
            LiteralType::Number(_) => None,
            LiteralType::String(text) => Some(text.clone()),
            LiteralType::Bool(value) => if *value {
                Some(owned("true"))
            } else {
                Some(owned("false"))
            },
            LiteralType::Function { declaration, closure } => {
                let mut text = owned("<fn ");
                match &**declaration {
                    Stmt::FunctionDecl { name, params, body } => {
                        push_text(&mut text, name.lexeme.as_str());
                    },
                    _ => {},
                }
                push_text(&mut text, ">");
                assert(text@ =~= display(*self));
                Some(text)
            },
            LiteralType::NativeFunction { name, arity, func } => {
                let mut text = owned("<fn ");
                push_text(&mut text, name.as_str());
                push_text(&mut text, ">");
                Some(text)
            },
        }
    }

    /// The number of arguments that the value takes when it is called; a
    /// fault blamed on `paren` for a value that cannot be called.
    pub fn arity(&self, paren: &Token) -> (result: Result<usize, RuntimeError>)
        ensures
            match arity_of(*self) {
                Some(count) => result == Ok::<usize, RuntimeError>(count),
                None => result is Err && result->Err_0.token == *paren
                    && result->Err_0.message@ == "can only call functions and classes"@,
            },
    {
        match self {
            LiteralType::Function { declaration, closure } => match &**declaration {
                Stmt::FunctionDecl { name, params, body } => Ok(params.len()),
                _ => Err(
                    RuntimeError::new(paren.clone(), owned("can only call functions and classes")),
                ),
            },
            LiteralType::NativeFunction { name, arity, func } => Ok(*arity),
            _ => Err(RuntimeError::new(paren.clone(), owned("can only call functions and classes"))),
        }
    }

    /// Begins a call of the value with the arguments `args`. A function gets
    /// a new scope inside the scope it was declared in, with its parameters
    /// bound to the arguments in order, and its body is entered; a native
    /// function does its work; any other value fails the run.
    pub fn call(&self, interpreter: &mut Interpreter, paren: &Token, args: Vec<LiteralType>)
        requires
            old(interpreter)@.wf(),
            fits(old(interpreter).frames@, Some(Kind::Value)),
            arity_of(*self) matches Some(count) ==> count == args@.len(),
        ensures
            final(interpreter).lands(calling(old(interpreter)@, *paren, *self, args@)),
            final(interpreter).wf(),
    {
        match self {
            LiteralType::Function { declaration, closure } => {
                interpreter.call_function(declaration, *closure, paren, args);
            },
            LiteralType::NativeFunction { name, arity, func } => {
                interpreter.call_native(*func, paren, args);
            },
            _ => {
                interpreter.fail(paren.clone(), "can only call functions and classes");
            },
        }
    }
}

} // verus!
