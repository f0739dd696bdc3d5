pub mod calls;
pub mod closures;
pub mod environment;
pub mod expressions;
pub mod host;
pub mod machine;
pub mod whole;
pub mod statements;
pub mod stdlib;

use crate::ast::{plain_stmts, Expr, Stmt};
use crate::error::RuntimeError;
use crate::interpreter::calls::{argument_known, callee_known};
use crate::interpreter::environment::Environment;
use crate::interpreter::expressions::{assignment, binary, evaluation, logical, unary};
use crate::interpreter::host::{answers, Action, Event, Request};
use crate::interpreter::machine::{
    control_kind, fits, lemma_ordered_under_newer, lemma_stacked_pop, lemma_stacked_push, linked,
    ordered, reaches, Control, Frame, Kind, Machine, Outcome,
};
use crate::interpreter::whole::{lemma_natives_are_whole, lemma_whole_after_step, whole_scopes};
use crate::interpreter::statements::{
    block_round, branched, declared, execution, program_round, range_assigned, range_bounded,
    range_ended, range_entered, range_first, range_round, range_started, repeated, returned,
    tested,
};
use crate::interpreter::stdlib::{
    is_native, line_read, native_name, number_parsed, number_truncated, prompt_written,
    text_known, Input, InputPrompt, Int, Print, PrintLn, StdLibFunc, Str,
};
use crate::text::owned;
use crate::token::Token;
use crate::types::{share, LiteralType, NativeKind};
use std::rc::Rc;
use vstd::prelude::*;

verus! {

/// A tree-walking interpreter that runs one step at a time. Between steps it
/// holds everything it needs to go on: the scopes, the scope that is current,
/// the stack of unfinished work, and what to do next.
pub struct Interpreter {
    pub environment: Environment,
    pub scope: usize,
    pub frames: Vec<Frame>,
    pub program: Vec<Rc<Stmt>>,
    pub control: Control,
}

impl View for Interpreter {
    type V = Machine;

    open spec fn view(&self) -> Machine {
        Machine {
            scopes: self.environment@,
            scope: self.scope,
            frames: self.frames@,
            program: self.program@,
        }
    }
}

impl Interpreter {
    /// The state is well formed, and the last frame waits for what the control
    /// hands on.
    pub open spec fn wf(&self) -> bool {
        self@.wf() && fits(self.frames@, control_kind(self.control))
    }

    /// The interpreter is in the state that `outcome` describes.
    pub open spec fn lands(&self, outcome: Outcome) -> bool {
        self@ == outcome.machine && reaches(self.control, outcome.next)
    }

    /// Fails with `message`, blamed on `token`.
    pub(crate) fn fail(&mut self, token: Token, message: &str)
        ensures
            final(self).lands(old(self)@.fails(token, message@)),
    {
        self.control = Control::Failed(RuntimeError::new(token, owned(message)));
    }

    /// Takes the last frame off the stack.
    pub(crate) fn pop(&mut self) -> (frame: Frame)
        requires
            old(self)@.wf(),
            old(self).frames@.len() > 0,
        ensures
            final(self)@ == old(self)@.popped(),
            final(self).control == old(self).control,
            final(self)@.wf(),
            frame == old(self).frames@.last(),
            frame.sound(),
            frame is Program ==> final(self).frames@.len() == 0,
            !(frame is Program) ==> fits(final(self).frames@, Some(frame.produces())),
            frame.saved() matches Some(saved) ==> saved < final(self).scope && ordered(
                final(self).frames@,
                saved,
            ),
    {
        proof {
            lemma_stacked_pop(self.frames@);
            if self.frames@.last().saved() is Some {
                lemma_ordered_under_newer(
                    self.frames@.drop_last(),
                    self.frames@.last().saved()->0,
                    self.scope,
                );
            }
        }
        match self.frames.pop() {
            Some(frame) => frame,
            None => vstd::pervasive::unreached(),
        }
    }

    /// Puts a frame on the stack.
    pub(crate) fn push(&mut self, frame: Frame)
        requires
            old(self)@.wf(),
            frame.sound(),
            !(frame is Program),
            fits(old(self).frames@, Some(frame.produces())),
            frame.saved() matches Some(saved) ==> saved < old(self).scope && ordered(
                old(self).frames@,
                saved,
            ),
        ensures
            final(self)@ == old(self)@.pushed(frame),
            final(self).control == old(self).control,
            final(self)@.wf(),
            fits(final(self).frames@, Some(frame.expects())),
    {
        proof {
            lemma_stacked_push(self.frames@, frame);
            assert(self.frames@.push(frame).drop_last() =~= self.frames@);
        }
        self.frames.push(frame);
    }

    /// Goes back to the scope `saved`, and discards the scope that is left
    /// where it is the newest one and no function keeps it.
    pub(crate) fn leave(&mut self, saved: usize)
        requires
            old(self)@.wf(),
            saved < old(self).scope,
            ordered(old(self).frames@, saved),
        ensures
            final(self)@ == old(self)@.left(saved),
            final(self).control == old(self).control,
            final(self)@.wf(),
    {
        let exited = self.scope;
        let count = self.environment.len();
        self.scope = saved;
        if exited == count - 1 && !self.environment.is_kept(exited) {
            self.environment.discard();
        }
    }
}

/// What the last frame does with the value of the expression it waited for.
/// The state `m` is the one without that frame.
pub open spec fn value_continuation(m: Machine, frame: Frame, value: LiteralType) -> Outcome {
    match frame {
        Frame::Unary(node) => match *node {
            Expr::Unary { operator, right } => unary(m, operator, value),
            _ => m.goes(Control::Finished),
        },
        Frame::BinaryLeft(node) => match *node {
            Expr::Binary { left, operator, right } => m.pushed(
                Frame::BinaryRight { node, left: value },
            ).goes(Control::Evaluate(right)),
            _ => m.goes(Control::Finished),
        },
        Frame::BinaryRight { node, left } => match *node {
            Expr::Binary { left: _, operator, right } => binary(m, operator, left, value),
            _ => m.goes(Control::Finished),
        },
        Frame::LogicalLeft(node) => match *node {
            Expr::Logical { left, operator, right } => logical(m, operator, right, value),
            _ => m.goes(Control::Finished),
        },
        Frame::Assign(node) => match *node {
            Expr::Assign { name, value: _ } => assignment(m, name, value),
            _ => m.goes(Control::Finished),
        },
        Frame::Callee(node) => callee_known(m, node, value),
        Frame::Argument { node, callee, arguments, count } => argument_known(
            m,
            node,
            callee,
            arguments,
            count,
            value,
        ),
        Frame::Expression => m.goes(Control::Completed(None)),
        Frame::VarDecl(node) => declared(m, node, value),
        Frame::If(node) => branched(m, node, value),
        Frame::WhileCondition(node) => tested(m, node, value),
        Frame::RangeStart(node) => range_started(m, node, value),
        Frame::RangeEnd { node, start } => range_ended(m, node, start, value),
        Frame::RangeBound { node, start } => range_bounded(m, node, start, value),
        Frame::RangeAssign { node, following, last, saved } => range_assigned(
            m,
            node,
            following,
            last,
            saved,
            value,
        ),
        Frame::Return => m.goes(Control::Completed(Some(value))),
        Frame::Write { newline } => text_known(m, newline, value),
        Frame::Prompt => prompt_written(m),
        Frame::Strip => line_read(m, value),
        _ => m.goes(Control::Finished),
    }
}

/// What the last frame does at the end of the statement it waited for. The
/// state `m` is the one without that frame.
pub open spec fn completion(m: Machine, frame: Frame, end: Option<LiteralType>) -> Outcome {
    match frame {
        Frame::Block { node, next, saved } => block_round(m, node, next, saved, end),
        Frame::Call => returned(m, end),
        Frame::WhileBody(node) => repeated(m, node, end),
        Frame::Range { node, next, last, saved } => range_round(m, node, next, last, saved, end),
        Frame::Program { next } => program_round(m, next),
        _ => m.goes(Control::Finished),
    }
}

/// What the last frame does with the integer it waited for. The state `m` is
/// the one without that frame.
pub open spec fn integer_continuation(m: Machine, frame: Frame, integer: i32) -> Outcome {
    match frame {
        Frame::RangeFirst { node, start, bound } => range_first(m, node, start, bound, integer),
        Frame::RangeLast { node, start, first } => range_entered(m, node, start, first, integer),
        Frame::IntTruncated => number_truncated(m, integer),
        _ => m.goes(Control::Finished),
    }
}

/// What the last frame does with the parsed number it waited for. The state
/// `m` is the one without that frame.
pub open spec fn parsed_continuation(m: Machine, frame: Frame, parsed: Option<u32>) -> Outcome {
    match frame {
        Frame::IntParsed { paren } => number_parsed(m, paren, parsed),
        _ => m.goes(Control::Finished),
    }
}

/// What an answer of the host becomes: a number, a truth value or a text is
/// the value of the expression that asked, and a finished write gives nil.
pub open spec fn delivered(event: Event) -> Control {
    match event {
        Event::Resume => Control::Finished,
        Event::Number(bits) => Control::Value(LiteralType::Number(bits)),
        Event::Boolean(value) => Control::Value(LiteralType::Bool(value)),
        Event::Integer(integer) => Control::Integer(integer),
        Event::Parsed(parsed) => Control::Parsed(parsed),
        Event::Text(text) => Control::Value(LiteralType::String(text)),
        Event::Written => Control::Value(LiteralType::Nil),
    }
}

/// One step of the interpreter, from the state `m` with `control` next. While
/// a request waits for its answer, any event that is no answer to it leaves
/// the state as it is; in every other state the event is not looked at. A run
/// that has finished or failed stays as it is.
pub open spec fn stepped(m: Machine, control: Control, event: Event) -> Outcome {
    match control {
        Control::Evaluate(expr) => evaluation(m, expr),
        Control::Execute(stmt) => execution(m, stmt),
        Control::Value(value) => value_continuation(m.popped(), m.frames.last(), value),
        Control::Completed(end) => completion(m.popped(), m.frames.last(), end),
        Control::Integer(integer) => integer_continuation(m.popped(), m.frames.last(), integer),
        Control::Parsed(parsed) => parsed_continuation(m.popped(), m.frames.last(), parsed),
        Control::Awaiting(request) => if answers(request, event) {
            m.goes(delivered(event))
        } else {
            m.goes(control)
        },
        Control::Finished => m.goes(control),
        Control::Failed(_) => m.goes(control),
    }
}

/// What the host is asked to do in a state with this control.
pub open spec fn action_for(control: Control) -> Action {
    match control {
        Control::Awaiting(request) => Action::Perform(request),
        Control::Finished => Action::Finished,
        Control::Failed(error) => Action::Failed(error),
        _ => Action::Continue,
    }
}

/// Whether the bindings are those of the native functions, each under its
/// name, and no others.
pub open spec fn holds_natives(bindings: Map<Seq<char>, LiteralType>) -> bool {
    &&& forall|kind: NativeKind| #[trigger]
        bindings.contains_key(native_name(kind)) && is_native(bindings[native_name(kind)], kind)
    &&& forall|name: Seq<char>| #[trigger]
        bindings.contains_key(name) ==> exists|kind: NativeKind| name == native_name(kind)
}

impl Interpreter {
    /// An interpreter whose global scope binds the native functions, with no
    /// program to run.
    pub fn new() -> (interpreter: Interpreter)
        ensures
            interpreter.wf(),
            interpreter.control == Control::Finished,
            interpreter@.scope == 0,
            interpreter@.frames.len() == 0,
            interpreter@.program.len() == 0,
            interpreter@.scopes.len() == 1,
            !interpreter@.scopes[0].kept,
            holds_natives(interpreter@.scopes[0].bindings),
            interpreter.whole(),
    {
        let mut global = Environment::new();
        global.define(0, Input::name(), Input::function());
        global.define(0, InputPrompt::name(), InputPrompt::function());
        global.define(0, PrintLn::name(), PrintLn::function());
        global.define(0, Print::name(), Print::function());
        global.define(0, Int::name(), Int::function());
        global.define(0, Str::name(), Str::function());
        proof {
            reveal_strlit("print");
            reveal_strlit("println");
            reveal_strlit("input");
            reveal_strlit("input_prompt");
            reveal_strlit("int");
            reveal_strlit("str");
            assert("print"@[0] != "input"@[0]);
            assert("int"@[0] != "str"@[0]);
            assert("print"@.len() == 5 && "println"@.len() == 7 && "input"@.len() == 5);
            assert("input_prompt"@.len() == 12 && "int"@.len() == 3 && "str"@.len() == 3);
            let bindings = global@[0].bindings;
            assert(bindings.contains_key("input"@));
            assert(bindings.contains_key("input_prompt"@));
            assert(bindings.contains_key("println"@));
            assert(bindings.contains_key("print"@));
            assert(bindings.contains_key("int"@));
            assert(bindings.contains_key("str"@));
            assert(is_native(bindings["str"@], NativeKind::Str));
            assert(is_native(bindings["int"@], NativeKind::Int));
            assert(is_native(bindings["print"@], NativeKind::Print));
            assert(is_native(bindings["println"@], NativeKind::PrintLn));
            assert(is_native(bindings["input_prompt"@], NativeKind::InputPrompt));
            assert(is_native(bindings["input"@], NativeKind::Input));
            assert forall|kind: NativeKind| #[trigger]
                bindings.contains_key(native_name(kind)) && is_native(
                    bindings[native_name(kind)],
                    kind,
                ) by {
                match kind {
                    NativeKind::Print => {},
                    NativeKind::PrintLn => {},
                    NativeKind::Input => {},
                    NativeKind::InputPrompt => {},
                    NativeKind::Int => {},
                    NativeKind::Str => {},
                }
            }
            assert forall|name: Seq<char>| #[trigger] bindings.contains_key(name) implies exists|
                kind: NativeKind,
            |
                name == native_name(kind) by {
                if name == "print"@ {
                    assert(name == native_name(NativeKind::Print));
                } else if name == "println"@ {
                    assert(name == native_name(NativeKind::PrintLn));
                } else if name == "input"@ {
                    assert(name == native_name(NativeKind::Input));
                } else if name == "input_prompt"@ {
                    assert(name == native_name(NativeKind::InputPrompt));
                } else if name == "int"@ {
                    assert(name == native_name(NativeKind::Int));
                } else {
                    assert(name == native_name(NativeKind::Str));
                }
            }
        }
        proof {
            lemma_natives_are_whole(global@);
        }
        Interpreter {
            environment: global,
            scope: 0,
            frames: Vec::new(),
            program: Vec::new(),
            control: Control::Finished,
        }
    }

    /// Takes up a program: its statements will run in order, in the global
    /// scope, against the scopes as they are. Where the scopes bind whole
    /// values and the program is plain, the interpreter is whole.
    pub fn interpret(&mut self, statements: Vec<Rc<Stmt>>)
        requires
            old(self).environment.wf(),
        ensures
            final(self).wf(),
            final(self)@ == (Machine {
                scopes: old(self)@.scopes,
                scope: 0,
                frames: seq![Frame::Program { next: 0 }],
                program: statements@,
            }),
            final(self).control == Control::Completed(None),
            whole_scopes(old(self)@.scopes) && plain_stmts(statements@) ==> final(self).whole(),
    {
        self.scope = 0;
        self.program = statements;
        self.frames = Vec::new();
        self.frames.push(Frame::Program { next: 0 });
        self.control = Control::Completed(None);
        proof {
            assert(self.frames@ =~= seq![Frame::Program { next: 0 }]);
            assert forall|index: int| 0 <= index < self.frames@.len() implies #[trigger] linked(
                self.frames@,
                index,
            ) by {}
            assert(self.frames@.drop_last() =~= Seq::empty());
            assert(ordered(self.frames@.drop_last(), 0));
            assert(ordered(self.frames@, 0));
        }
    }

    /// What the host is asked to do in the state as it is.
    pub fn action(&self) -> (action: Action)
        ensures
            action == action_for(self.control),
    {
        match &self.control {
            Control::Awaiting(request) => Action::Perform(request.clone()),
            Control::Finished => Action::Finished,
            Control::Failed(error) => Action::Failed(error.clone()),
            _ => Action::Continue,
        }
    }

    /// Whether the run has finished or failed.
    pub fn is_done(&self) -> (done: bool)
        ensures
            done == (self.control is Finished || self.control is Failed),
    {
        match &self.control {
            Control::Finished => true,
            Control::Failed(_) => true,
            _ => false,
        }
    }

    /// Hands the value of an expression to the last frame.
    pub fn resume_value(&mut self, value: LiteralType)
        requires
            old(self)@.wf(),
            fits(old(self).frames@, Some(Kind::Value)),
        ensures
            final(self).lands(
                value_continuation(old(self)@.popped(), old(self)@.frames.last(), value),
            ),
            final(self).wf(),
    {
        let frame = self.pop();
        match frame {
            Frame::Unary(node) => match &*node {
                Expr::Unary { operator, right } => self.apply_unary(operator, value),
                _ => {},
            },
            Frame::BinaryLeft(node) => match &*node {
                Expr::Binary { left, operator, right } => {
                    let second = share(right);
                    self.push(Frame::BinaryRight { node, left: value });
                    self.control = Control::Evaluate(second);
                },
                _ => {},
            },
            Frame::BinaryRight { node, left } => match &*node {
                Expr::Binary { left: _, operator, right } => self.apply_binary(
                    operator,
                    left,
                    value,
                ),
                _ => {},
            },
            Frame::LogicalLeft(node) => match &*node {
                Expr::Logical { left, operator, right } => self.apply_logical(
                    operator,
                    right,
                    value,
                ),
                _ => {},
            },
            Frame::Assign(node) => match &*node {
                Expr::Assign { name, value: _ } => self.apply_assign(name, value),
                _ => {},
            },
            Frame::Callee(node) => self.apply_callee(node, value),
            Frame::Argument { node, callee, arguments, count } => self.apply_argument(
                node,
                callee,
                arguments,
                count,
                value,
            ),
            Frame::Expression => {
                self.control = Control::Completed(None);
            },
            Frame::VarDecl(node) => self.declare(node, value),
            Frame::If(node) => self.branch(node, value),
            Frame::WhileCondition(node) => self.test_loop(node, value),
            Frame::RangeStart(node) => self.start_range(node, value),
            Frame::RangeEnd { node, start } => self.end_range(node, start, value),
            Frame::RangeBound { node, start } => self.bound_range(node, start, value),
            Frame::RangeAssign { node, following, last, saved } => self.assign_range(
                node,
                following,
                last,
                saved,
                value,
            ),
            Frame::Return => {
                self.control = Control::Completed(Some(value));
            },
            Frame::Write { newline } => self.write_text(newline, value),
            Frame::Prompt => self.read_after_prompt(),
            Frame::Strip => self.strip_line(value),
            _ => {
                assert(false);
            },
        }
    }

    /// Hands the end of a statement to the last frame.
    pub fn resume_completed(&mut self, end: Option<LiteralType>)
        requires
            old(self)@.wf(),
            fits(old(self).frames@, Some(Kind::Completed)),
        ensures
            final(self).lands(completion(old(self)@.popped(), old(self)@.frames.last(), end)),
            final(self).wf(),
    {
        let frame = self.pop();
        match frame {
            Frame::Block { node, next, saved } => self.round_block(node, next, saved, end),
            Frame::Call => self.finish_call(end),
            Frame::WhileBody(node) => self.repeat_loop(node, end),
            Frame::Range { node, next, last, saved } => self.round_range(
                node,
                next,
                last,
                saved,
                end,
            ),
            Frame::Program { next } => self.round_program(next),
            _ => {
                assert(false);
            },
        }
    }

    /// Hands an integer from the host to the last frame.
    pub fn resume_integer(&mut self, integer: i32)
        requires
            old(self)@.wf(),
            fits(old(self).frames@, Some(Kind::Integer)),
        ensures
            final(self).lands(
                integer_continuation(old(self)@.popped(), old(self)@.frames.last(), integer),
            ),
            final(self).wf(),
    {
        let frame = self.pop();
        match frame {
            Frame::RangeFirst { node, start, bound } => {
                self.push(Frame::RangeLast { node, start, first: integer });
                self.control = Control::Awaiting(Request::Truncate { number: bound });
            },
            Frame::RangeLast { node, start, first } => self.enter_range(
                node,
                start,
                first,
                integer,
            ),
            Frame::IntTruncated => {
                self.control = Control::Awaiting(Request::FromInteger { integer });
            },
            _ => {
                assert(false);
            },
        }
    }

    /// Hands a parsed number from the host to the last frame.
    pub fn resume_parsed(&mut self, parsed: Option<u32>)
        requires
            old(self)@.wf(),
            fits(old(self).frames@, Some(Kind::Parsed)),
        ensures
            final(self).lands(
                parsed_continuation(old(self)@.popped(), old(self)@.frames.last(), parsed),
            ),
            final(self).wf(),
    {
        let frame = self.pop();
        match frame {
            Frame::IntParsed { paren } => self.truncate_parsed(paren, parsed),
            _ => {
                assert(false);
            },
        }
    }

    /// Takes the host's answer to a request, if `event` is one.
    pub fn answer(&mut self, request: Request, event: Event)
        requires
            old(self)@.wf(),
            fits(old(self).frames@, Some(crate::interpreter::machine::answer_kind(request))),
        ensures
            final(self).lands(
                stepped(old(self)@, Control::Awaiting(request), event),
            ),
            final(self).wf(),
    {
        let accepted = match (&request, &event) {
            (Request::Arithmetic { .. }, Event::Number(_)) => true,
            (Request::Compare { .. }, Event::Boolean(_)) => true,
            (Request::Negate { .. }, Event::Number(_)) => true,
            (Request::Truncate { .. }, Event::Integer(_)) => true,
            (Request::FromInteger { .. }, Event::Number(_)) => true,
            (Request::Parse { .. }, Event::Parsed(_)) => true,
            (Request::Format { .. }, Event::Text(_)) => true,
            (Request::Write { .. }, Event::Written) => true,
            (Request::ReadLine, Event::Text(_)) => true,
            _ => false,
        };
        assert(accepted == answers(request, event));
        if accepted {
            self.control = match event {
                Event::Resume => Control::Finished,
                Event::Number(bits) => Control::Value(LiteralType::Number(bits)),
                Event::Boolean(value) => Control::Value(LiteralType::Bool(value)),
                Event::Integer(integer) => Control::Integer(integer),
                Event::Parsed(parsed) => Control::Parsed(parsed),
                Event::Text(text) => Control::Value(LiteralType::String(text)),
                Event::Written => Control::Value(LiteralType::Nil),
            };
        } else {
            self.control = Control::Awaiting(request);
        }
    }

    /// Takes one step of the run and says what the host is to do before the
    /// next one. An interpreter that is whole stays whole.
    pub fn step(&mut self, event: Event) -> (action: Action)
        requires
            old(self).wf(),
        ensures
            final(self).wf(),
            final(self).lands(stepped(old(self)@, old(self).control, event)),
            action == action_for(final(self).control),
            old(self).whole() ==> final(self).whole(),
    {
        let mut control = Control::Finished;
        std::mem::swap(&mut self.control, &mut control);
        match control {
            Control::Evaluate(expr) => self.evaluate(expr),
            Control::Execute(stmt) => self.execute(stmt),
            Control::Value(value) => self.resume_value(value),
            Control::Completed(end) => self.resume_completed(end),
            Control::Integer(integer) => self.resume_integer(integer),
            Control::Parsed(parsed) => self.resume_parsed(parsed),
            Control::Awaiting(request) => self.answer(request, event),
            Control::Finished => {},
            Control::Failed(error) => {
                self.control = Control::Failed(error);
            },
        }
        proof {
            if old(self).whole() {
                lemma_whole_after_step(*old(self), event, *self);
            }
        }
        self.action()
    }

    /// Takes a step, and then more steps until the host has something to do,
    /// the run has ended, or `limit` more steps are taken, and says what the
    /// host is to do then. The first step gets `event`, every later one gets
    /// nothing.
    pub fn run(&mut self, event: Event, limit: u64) -> (action: Action)
        requires
            old(self).wf(),
        ensures
            final(self).wf(),
            action == action_for(final(self).control),
            exists|steps: nat|
                1 <= steps <= limit + 1 && #[trigger] ran(*old(self), event, *final(self), steps)
                    && (action is Continue ==> steps == limit + 1),
            old(self).whole() ==> final(self).whole(),
    {
        let mut action = self.step(event);
        let mut more: u64 = 0;
        assert(ran(*old(self), event, *self, 1));
        while more < limit && matches!(action, Action::Continue)
            invariant
                self.wf(),
                more <= limit,
                action == action_for(self.control),
                ran(*old(self), event, *self, (more + 1) as nat),
                old(self).whole() ==> self.whole(),
            decreases limit - more,
        {
            let ghost before = *self;
            action = self.step(Event::Resume);
            proof {
                lemma_ran_one_more(*old(self), event, before, *self, (more + 1) as nat);
            }
            more = more + 1;
        }
        action
    }
}

/// Whether `post` is the state one step after `pre`, a step that got `event`.
pub open spec fn follows(pre: Interpreter, event: Event, post: Interpreter) -> bool {
    post.lands(stepped(pre@, pre.control, event))
}

/// Whether `post` is the state `steps` steps after `pre`, where the first step
/// got `event`, every later one got nothing, and the host had nothing to do
/// before any but the last.
pub open spec fn ran(pre: Interpreter, event: Event, post: Interpreter, steps: nat) -> bool
    decreases steps,
{
    if steps == 0 {
        false
    } else if steps == 1 {
        follows(pre, event, post)
    } else {
        exists|next: Interpreter|
            #[trigger] follows(pre, event, next) && action_for(next.control) is Continue && ran(
                next,
                Event::Resume,
                post,
                (steps - 1) as nat,
            )
    }
}

/// One more step after a run, where the host had nothing to do, is a run of
/// one more step.
pub proof fn lemma_ran_one_more(
    pre: Interpreter,
    event: Event,
    mid: Interpreter,
    post: Interpreter,
    steps: nat,
)
    requires
        ran(pre, event, mid, steps),
        action_for(mid.control) is Continue,
        follows(mid, Event::Resume, post),
    ensures
        ran(pre, event, post, steps + 1),
    decreases steps,
{
    if steps == 1 {
        assert(follows(pre, event, mid) && action_for(mid.control) is Continue && ran(
            mid,
            Event::Resume,
            post,
            1,
        ));
    } else if steps > 1 {
        let next = choose|next: Interpreter|
            #[trigger] follows(pre, event, next) && action_for(next.control) is Continue && ran(
                next,
                Event::Resume,
                mid,
                (steps - 1) as nat,
            );
        lemma_ran_one_more(next, Event::Resume, mid, post, (steps - 1) as nat);
        assert(follows(pre, event, next) && action_for(next.control) is Continue && ran(
            next,
            Event::Resume,
            post,
            steps,
        ));
    }
}

} // verus!
