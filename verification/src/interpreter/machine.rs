use crate::ast::{Expr, Stmt};
use crate::error::RuntimeError;
use crate::interpreter::environment::{chained, ScopeModel};
use crate::interpreter::host::Request;
use crate::token::Token;
use crate::types::LiteralType;
use std::rc::Rc;
use vstd::prelude::*;

verus! {

/// The values of a call's arguments that have been computed so far, the last
/// one outermost.
#[derive(Debug)]
pub enum Arguments {
    Empty,
    Then(Box<Arguments>, LiteralType),
}

impl Arguments {
    /// The values in the order of the arguments.
    pub open spec fn listed(self) -> Seq<LiteralType>
        decreases self,
    {
        match self {
            Arguments::Empty => Seq::empty(),
            Arguments::Then(before, last) => before.listed().push(last),
        }
    }
}

/// What a piece of unfinished work is waiting for, or what finished work hands
/// on.
#[derive(PartialEq, Eq, Structural)]
pub enum Kind {
    /// The value of an expression.
    Value,
    /// The end of a statement.
    Completed,
    /// An integer from the host.
    Integer,
    /// A parsed number from the host.
    Parsed,
}

/// Work that has begun and waits for a part of it to finish. The frames of a
/// run form a stack: the last one waits for what the interpreter does now, the
/// one before it for the result of the last one, and so on.
#[derive(Debug)]
#[allow(inconsistent_fields)]
pub enum Frame {
    /// A unary expression waits for its operand.
    Unary(Rc<Expr>),
    /// A binary expression waits for its left operand.
    BinaryLeft(Rc<Expr>),
    /// A binary expression has its left operand and waits for the right one.
    BinaryRight { node: Rc<Expr>, left: LiteralType },
    /// A logical expression waits for its left operand.
    LogicalLeft(Rc<Expr>),
    /// An assignment waits for the value to assign.
    Assign(Rc<Expr>),
    /// A call waits for its callee.
    Callee(Rc<Expr>),
    /// A call has its callee and `count` arguments and waits for the next one.
    Argument { node: Rc<Expr>, callee: LiteralType, arguments: Arguments, count: usize },
    /// An expression statement waits for its value, to drop it.
    Expression,
    /// A variable declaration waits for its initial value.
    VarDecl(Rc<Stmt>),
    /// An `if` waits for its condition.
    If(Rc<Stmt>),
    /// A `while` waits for its condition.
    WhileCondition(Rc<Stmt>),
    /// A `while` waits for its body.
    WhileBody(Rc<Stmt>),
    /// A range loop waits for its first bound.
    RangeStart(Rc<Stmt>),
    /// A range loop has its first bound and waits for the second.
    RangeEnd { node: Rc<Stmt>, start: LiteralType },
    /// A range loop waits for its second bound plus one.
    RangeBound { node: Rc<Stmt>, start: u32 },
    /// A range loop waits for its first bound as an integer.
    RangeFirst { node: Rc<Stmt>, start: u32, bound: u32 },
    /// A range loop waits for its second bound plus one as an integer.
    RangeLast { node: Rc<Stmt>, start: u32, first: i32 },
    /// A range loop waits for its body; `next` is the integer of the next
    /// round, `last` the first that gets none, and `saved` the scope to go
    /// back to.
    Range { node: Rc<Stmt>, next: i32, last: i32, saved: usize },
    /// A range loop waits for the number of this round, to assign it.
    RangeAssign { node: Rc<Stmt>, following: i32, last: i32, saved: usize },
    /// A `return` waits for its value.
    Return,
    /// A block, or the body of a function, waits for one of its statements;
    /// `next` is the index of the one after it and `saved` the scope to go
    /// back to.
    Block { node: Rc<Stmt>, next: usize, saved: usize },
    /// A call waits for the body of its function.
    Call,
    /// The program waits for one of its statements; `next` is the index of the
    /// one after it.
    Program { next: usize },
    /// `print` or `println` waits for the text of a number.
    Write { newline: bool },
    /// `input_prompt` waits for its prompt to be written.
    Prompt,
    /// `input_prompt` waits for the line, to cut its end off.
    Strip,
    /// `int` waits for the number that its text denotes.
    IntParsed { paren: Token },
    /// `int` waits for the integer part of its number.
    IntTruncated,
}

/// What the interpreter does next.
#[derive(Debug)]
pub enum Control {
    /// Evaluate this expression.
    Evaluate(Rc<Expr>),
    /// Execute this statement.
    Execute(Rc<Stmt>),
    /// Hand this value of an expression to the last frame.
    Value(LiteralType),
    /// Hand the end of a statement to the last frame: `Some` where a `return`
    /// ended it, with the value returned.
    Completed(Option<LiteralType>),
    /// Hand this integer, an answer of the host, to the last frame.
    Integer(i32),
    /// Hand this parsed number, an answer of the host, to the last frame.
    Parsed(Option<u32>),
    /// Wait for the host to answer this request.
    Awaiting(Request),
    /// Nothing: the program has run to its end.
    Finished,
    /// Nothing: the program has failed.
    Failed(RuntimeError),
}

/// What the control is after a step. A text that the step has made is given
/// by its characters.
#[allow(inconsistent_fields)]
pub enum Next {
    /// This control.
    Exactly(Control),
    /// A string value with this text.
    Text(Seq<char>),
    /// A request to write this text.
    Write { text: Seq<char>, newline: bool },
    /// A failure with this message, blamed on this token.
    Failure { token: Token, message: Seq<char> },
}

/// Whether `control` is what `next` says.
pub open spec fn reaches(control: Control, next: Next) -> bool {
    match next {
        Next::Exactly(exact) => control == exact,
        Next::Text(text) => control matches Control::Value(LiteralType::String(made)) && made@
            == text,
        Next::Write { text, newline } => control matches Control::Awaiting(
            Request::Write { text: made, newline: line },
        ) && made@ == text && line == newline,
        Next::Failure { token, message } => control matches Control::Failed(error) && error.token
            == token && error.message@ == message,
    }
}

/// The interpreter's state but for its control.
pub struct Machine {
    pub scopes: Seq<ScopeModel>,
    pub scope: usize,
    pub frames: Seq<Frame>,
    pub program: Seq<Rc<Stmt>>,
}

/// The state after a step.
pub struct Outcome {
    pub machine: Machine,
    pub next: Next,
}

impl Machine {
    /// The state with this control next and nothing else changed.
    pub open spec fn leads(self, next: Next) -> Outcome {
        Outcome { machine: self, next }
    }

    /// The state with this control next.
    pub open spec fn goes(self, control: Control) -> Outcome {
        Outcome { machine: self, next: Next::Exactly(control) }
    }

    /// The state failed, with this message blamed on this token.
    pub open spec fn fails(self, token: Token, message: Seq<char>) -> Outcome {
        Outcome { machine: self, next: Next::Failure { token, message } }
    }

    /// With one more frame.
    pub open spec fn pushed(self, frame: Frame) -> Machine {
        Machine { frames: self.frames.push(frame), ..self }
    }

    /// Without the last frame.
    pub open spec fn popped(self) -> Machine {
        Machine { frames: self.frames.drop_last(), ..self }
    }

    /// In another scope.
    pub open spec fn within(self, scope: usize) -> Machine {
        Machine { scope, ..self }
    }

    /// With other scopes.
    pub open spec fn over(self, scopes: Seq<ScopeModel>) -> Machine {
        Machine { scopes, ..self }
    }
}

/// What a value is worth as a condition: only the boolean `true` counts.
pub open spec fn truthy(value: LiteralType) -> bool {
    value == LiteralType::Bool(true)
}

/// The statements of a block or of a function's body.
pub open spec fn statements_of(node: Stmt) -> Seq<Rc<Stmt>> {
    match node {
        Stmt::Block(statements) => statements@,
        Stmt::FunctionDecl { name, params, body } => body@,
        _ => Seq::empty(),
    }
}

/// The kind of answer that a request gets.
pub open spec fn answer_kind(request: Request) -> Kind {
    match request {
        Request::Truncate { .. } => Kind::Integer,
        Request::Parse { .. } => Kind::Parsed,
        _ => Kind::Value,
    }
}

/// What the last frame must be waiting for, where the control hands anything
/// to it.
pub open spec fn control_kind(control: Control) -> Option<Kind> {
    match control {
        Control::Evaluate(_) => Some(Kind::Value),
        Control::Execute(_) => Some(Kind::Completed),
        Control::Value(_) => Some(Kind::Value),
        Control::Completed(_) => Some(Kind::Completed),
        Control::Integer(_) => Some(Kind::Integer),
        Control::Parsed(_) => Some(Kind::Parsed),
        Control::Awaiting(request) => Some(answer_kind(request)),
        Control::Finished => None,
        Control::Failed(_) => None,
    }
}

impl Frame {
    /// What the frame waits for.
    pub open spec fn expects(self) -> Kind {
        match self {
            Frame::Block { .. } => Kind::Completed,
            Frame::Call => Kind::Completed,
            Frame::WhileBody(_) => Kind::Completed,
            Frame::Range { .. } => Kind::Completed,
            Frame::Program { .. } => Kind::Completed,
            Frame::RangeFirst { .. } => Kind::Integer,
            Frame::RangeLast { .. } => Kind::Integer,
            Frame::IntTruncated => Kind::Integer,
            Frame::IntParsed { .. } => Kind::Parsed,
            _ => Kind::Value,
        }
    }

    /// What the frame hands on when its work is done.
    pub open spec fn produces(self) -> Kind {
        match self {
            Frame::Unary(_) => Kind::Value,
            Frame::BinaryLeft(_) => Kind::Value,
            Frame::BinaryRight { .. } => Kind::Value,
            Frame::LogicalLeft(_) => Kind::Value,
            Frame::Assign(_) => Kind::Value,
            Frame::Callee(_) => Kind::Value,
            Frame::Argument { .. } => Kind::Value,
            Frame::Call => Kind::Value,
            Frame::Write { .. } => Kind::Value,
            Frame::Prompt => Kind::Value,
            Frame::Strip => Kind::Value,
            Frame::IntParsed { .. } => Kind::Value,
            Frame::IntTruncated => Kind::Value,
            _ => Kind::Completed,
        }
    }

    /// The scope to go back to when the work of the frame is done, where the
    /// frame is one that a scope was entered for.
    pub open spec fn saved(self) -> Option<usize> {
        match self {
            Frame::Range { saved, .. } => Some(saved),
            Frame::RangeAssign { saved, .. } => Some(saved),
            Frame::Block { saved, .. } => Some(saved),
            _ => None,
        }
    }

    /// The frame holds a node of the kind it is for.
    pub open spec fn sound(self) -> bool {
        match self {
            Frame::Unary(node) => *node is Unary,
            Frame::BinaryLeft(node) => *node is Binary,
            Frame::BinaryRight { node, .. } => *node is Binary,
            Frame::LogicalLeft(node) => *node is Logical,
            Frame::Assign(node) => *node is Assign,
            Frame::Callee(node) => *node is Call,
            Frame::Argument { node, callee, arguments, count } => *node matches Expr::Call {
                args,
                ..
            } && arguments.listed().len() == count && count < args@.len(),
            Frame::VarDecl(node) => *node is VarDecl,
            Frame::If(node) => *node is If,
            Frame::WhileCondition(node) => *node matches Stmt::While { condition: Some(_), .. },
            Frame::WhileBody(node) => *node matches Stmt::While { condition: Some(_), .. },
            Frame::RangeStart(node) => *node is ForRange,
            Frame::RangeEnd { node, .. } => *node is ForRange,
            Frame::RangeBound { node, .. } => *node is ForRange,
            Frame::RangeFirst { node, .. } => *node is ForRange,
            Frame::RangeLast { node, .. } => *node is ForRange,
            Frame::Range { node, .. } => *node is ForRange,
            Frame::RangeAssign { node, .. } => *node is ForRange,
            _ => true,
        }
    }
}

/// The frame at `index` is sound and hands on what the frame before it waits
/// for; the first frame, and no other, is the program's.
pub open spec fn linked(frames: Seq<Frame>, index: int) -> bool {
    &&& frames[index].sound()
    &&& index > 0 ==> frames[index].produces() == frames[index - 1].expects()
    &&& (index == 0) == (frames[index] is Program)
}

/// Every frame is linked to the one before it.
pub open spec fn stacked(frames: Seq<Frame>) -> bool {
    forall|index: int| 0 <= index < frames.len() ==> #[trigger] linked(frames, index)
}

/// The scopes that the frames go back to are older from frame to frame, and
/// all older than the current scope `scope`: a scope is entered from an older
/// one.
pub open spec fn ordered(frames: Seq<Frame>, scope: usize) -> bool
    decreases frames.len(),
{
    if frames.len() == 0 {
        true
    } else {
        match frames.last().saved() {
            Some(saved) => saved < scope && ordered(frames.drop_last(), saved),
            None => ordered(frames.drop_last(), scope),
        }
    }
}

/// The last frame waits for `kind`.
pub open spec fn fits(frames: Seq<Frame>, kind: Option<Kind>) -> bool {
    kind matches Some(wanted) ==> frames.len() > 0 && frames.last().expects() == wanted
}

impl Machine {
    /// The scopes form chains, the current scope exists, and the frames form
    /// a stack.
    pub open spec fn wf(self) -> bool {
        &&& chained(self.scopes)
        &&& self.scope < self.scopes.len()
        &&& stacked(self.frames)
        &&& ordered(self.frames, self.scope)
    }

    /// Back in the scope `saved`, after the current scope was left. The scope
    /// that was left is discarded where it is the newest one and no function
    /// keeps it.
    pub open spec fn left(self, saved: usize) -> Machine {
        if self.scope + 1 == self.scopes.len() && saved < self.scope
            && !self.scopes[self.scope as int].kept {
            Machine { scopes: self.scopes.drop_last(), scope: saved, ..self }
        } else {
            Machine { scope: saved, ..self }
        }
    }
}

/// A sound frame that hands on what the last frame waits for can go on the
/// stack.
pub proof fn lemma_stacked_push(frames: Seq<Frame>, frame: Frame)
    requires
        stacked(frames),
        frame.sound(),
        frames.len() > 0,
        !(frame is Program),
        frame.produces() == frames.last().expects(),
    ensures
        stacked(frames.push(frame)),
{
    let after = frames.push(frame);
    assert forall|index: int| 0 <= index < after.len() implies #[trigger] linked(after, index) by {
        if index < frames.len() {
            assert(linked(frames, index));
        }
    }
}

/// Without its last frame a stack is a stack, and the last frame hands on
/// what the frame before it waits for.
pub proof fn lemma_stacked_pop(frames: Seq<Frame>)
    requires
        stacked(frames),
        frames.len() > 0,
    ensures
        stacked(frames.drop_last()),
        frames.last().sound(),
        frames.len() > 1 ==> frames.last().produces() == frames.drop_last().last().expects(),
        (frames.len() == 1) == (frames.last() is Program),
{
    let before = frames.drop_last();
    assert(linked(frames, frames.len() - 1));
    assert forall|index: int| 0 <= index < before.len() implies #[trigger] linked(
        before,
        index,
    ) by {
        assert(linked(frames, index));
    }
}

/// Frames that are in order under a scope are in order under every newer one.
pub proof fn lemma_ordered_under_newer(frames: Seq<Frame>, scope: usize, newer: usize)
    requires
        ordered(frames, scope),
        scope <= newer,
    ensures
        ordered(frames, newer),
    decreases frames.len(),
{
    if frames.len() > 0 {
        if frames.last().saved() is None {
            lemma_ordered_under_newer(frames.drop_last(), scope, newer);
        }
    }
}

} // verus!
