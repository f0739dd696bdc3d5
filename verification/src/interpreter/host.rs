use crate::error::RuntimeError;
use vstd::prelude::*;

verus! {

/// An arithmetic operation on two numbers that gives a number.
#[derive(Debug, PartialEq, Eq, Clone, Copy, Structural)]
pub enum ArithmeticOp {
    Add,
    Subtract,
    Multiply,
    Divide,
    Remainder,
}

/// A comparison of two numbers.
#[derive(Debug, PartialEq, Eq, Clone, Copy, Structural)]
pub enum ComparisonOp {
    Greater,
    GreaterEqual,
    Less,
    LessEqual,
    Equal,
    NotEqual,
}

/// Work that the interpreter cannot do itself and asks its host for: number
/// arithmetic, conversions between numbers and text, and console input and
/// output. Numbers travel as bit patterns.
#[derive(Debug)]
#[allow(inconsistent_fields)]
pub enum Request {
    /// `left operator right`; answered by `Event::Number`.
    Arithmetic { operator: ArithmeticOp, left: u32, right: u32 },
    /// `left operator right`; answered by `Event::Boolean`.
    Compare { operator: ComparisonOp, left: u32, right: u32 },
    /// `-operand`; answered by `Event::Number`.
    Negate { operand: u32 },
    /// The number cut to a 32-bit integer, towards zero; answered by
    /// `Event::Integer`.
    Truncate { number: u32 },
    /// The number nearest to the integer; answered by `Event::Number`.
    FromInteger { integer: i32 },
    /// The number that the text denotes, if it denotes one; answered by
    /// `Event::Parsed`.
    Parse { text: String },
    /// The text form of the number; answered by `Event::Text`.
    Format { number: u32 },
    /// Write the text to standard output, followed by a line break if
    /// `newline` is set; answered by `Event::Written`.
    Write { text: String, newline: bool },
    /// Read one line from standard input, with its line break; answered by
    /// `Event::Text`.
    ReadLine,
}

impl Clone for Request {
    fn clone(&self) -> (copy: Request)
        ensures
            copy == *self,
    {
        match self {
            Request::Arithmetic { operator, left, right } => Request::Arithmetic {
                operator: *operator,
                left: *left,
                right: *right,
            },
            Request::Compare { operator, left, right } => Request::Compare {
                operator: *operator,
                left: *left,
                right: *right,
            },
            Request::Negate { operand } => Request::Negate { operand: *operand },
            Request::Truncate { number } => Request::Truncate { number: *number },
            Request::FromInteger { integer } => Request::FromInteger { integer: *integer },
            Request::Parse { text } => Request::Parse { text: text.clone() },
            Request::Format { number } => Request::Format { number: *number },
            Request::Write { text, newline } => Request::Write {
                text: text.clone(),
                newline: *newline,
            },
            Request::ReadLine => Request::ReadLine,
        }
    }
}

/// What the host hands to a step of the interpreter: nothing, or the answer to
/// the request that the step before made.
#[derive(Debug)]
pub enum Event {
    Resume,
    Number(u32),
    Boolean(bool),
    Integer(i32),
    Parsed(Option<u32>),
    Text(String),
    Written,
}

/// What a step of the interpreter asks of its host.
#[derive(Debug)]
pub enum Action {
    /// Nothing: take the next step.
    Continue,
    /// Do the work and hand its result to the next step.
    Perform(Request),
    /// The program has run to its end.
    Finished,
    /// The program has failed: report the fault and stop.
    Failed(RuntimeError),
}

/// Whether `event` is an answer of the kind that `request` asks for.
pub open spec fn answers(request: Request, event: Event) -> bool {
    match request {
        Request::Arithmetic { .. } => event is Number,
        Request::Compare { .. } => event is Boolean,
        Request::Negate { .. } => event is Number,
        Request::Truncate { .. } => event is Integer,
        Request::FromInteger { .. } => event is Number,
        Request::Parse { .. } => event is Parsed,
        Request::Format { .. } => event is Text,
        Request::Write { .. } => event is Written,
        Request::ReadLine => event is Text,
    }
}

} // verus!
