use crate::ast::{plain_expr, plain_exprs, plain_stmt, plain_stmts, Expr, Stmt};
use crate::interpreter::calls::{bind_parameters, invocation};
use crate::interpreter::closures::persists;
use crate::interpreter::environment::{
    bind, empty_scope, keep, lemma_resolve_in_range, lookup, resolve, ScopeModel,
};
use crate::interpreter::expressions::{assignment, evaluation};
use crate::interpreter::host::Event;
use crate::interpreter::machine::{Arguments, Control, Frame, Machine, Next, Outcome};
use crate::interpreter::statements::execution;
use crate::interpreter::stdlib::{native, native_name};
use crate::interpreter::{
    completion, holds_natives, integer_continuation, parsed_continuation, stepped,
    value_continuation, Interpreter,
};
use crate::token::Token;
use crate::types::{LiteralType, NativeKind};
use std::rc::Rc;
use vstd::prelude::*;

verus! {

/// Whether a value, if it is a function, is whole: its scope exists and is
/// kept, and its declaration is plain.
pub open spec fn whole(value: LiteralType, scopes: Seq<ScopeModel>) -> bool {
    match value {
        LiteralType::Function { declaration, closure } => closure < scopes.len()
            && scopes[closure as int].kept && plain_stmt(*declaration),
        _ => true,
    }
}

/// Whether the argument values are whole.
pub open spec fn whole_arguments(arguments: Arguments, scopes: Seq<ScopeModel>) -> bool
    decreases arguments,
{
    match arguments {
        Arguments::Empty => true,
        Arguments::Then(before, last) => whole_arguments(*before, scopes) && whole(last, scopes),
    }
}

/// Whether the values of a sequence are whole.
pub open spec fn whole_values(values: Seq<LiteralType>, scopes: Seq<ScopeModel>) -> bool {
    forall|i: int| 0 <= i < values.len() ==> whole(#[trigger] values[i], scopes)
}

/// Whether what a frame holds is whole and plain.
pub open spec fn whole_frame(frame: Frame, scopes: Seq<ScopeModel>) -> bool {
    match frame {
        Frame::Unary(node) => plain_expr(*node),
        Frame::BinaryLeft(node) => plain_expr(*node),
        Frame::BinaryRight { node, left } => plain_expr(*node) && whole(left, scopes),
        Frame::LogicalLeft(node) => plain_expr(*node),
        Frame::Assign(node) => plain_expr(*node),
        Frame::Callee(node) => plain_expr(*node),
        Frame::Argument { node, callee, arguments, count } => plain_expr(*node) && whole(
            callee,
            scopes,
        ) && whole_arguments(arguments, scopes),
        Frame::VarDecl(node) => plain_stmt(*node),
        Frame::If(node) => plain_stmt(*node),
        Frame::WhileCondition(node) => plain_stmt(*node),
        Frame::WhileBody(node) => plain_stmt(*node),
        Frame::RangeStart(node) => plain_stmt(*node),
        Frame::RangeEnd { node, start } => plain_stmt(*node) && whole(start, scopes),
        Frame::RangeBound { node, start } => plain_stmt(*node),
        Frame::RangeFirst { node, start, bound } => plain_stmt(*node),
        Frame::RangeLast { node, start, first } => plain_stmt(*node),
        Frame::Range { node, next, last, saved } => plain_stmt(*node),
        Frame::RangeAssign { node, following, last, saved } => plain_stmt(*node),
        Frame::Block { node, next, saved } => plain_stmt(*node),
        _ => true,
    }
}

/// Whether what the control holds is whole and plain.
pub open spec fn whole_control(control: Control, scopes: Seq<ScopeModel>) -> bool {
    match control {
        Control::Evaluate(expr) => plain_expr(*expr),
        Control::Execute(stmt) => plain_stmt(*stmt),
        Control::Value(value) => whole(value, scopes),
        Control::Completed(Some(value)) => whole(value, scopes),
        _ => true,
    }
}

/// Whether what the control holds after a step is whole and plain.
pub open spec fn whole_next(next: Next, scopes: Seq<ScopeModel>) -> bool {
    match next {
        Next::Exactly(control) => whole_control(control, scopes),
        _ => true,
    }
}

/// Whether every value that the scopes bind is whole.
pub open spec fn whole_scopes(scopes: Seq<ScopeModel>) -> bool {
    forall|i: int, name: Seq<char>|
        0 <= i < scopes.len() && scopes[i].bindings.contains_key(name) ==> whole(
            #[trigger] scopes[i].bindings[name],
            scopes,
        )
}

/// Whether what every frame holds is whole and plain.
pub open spec fn whole_frames(frames: Seq<Frame>, scopes: Seq<ScopeModel>) -> bool {
    forall|j: int| 0 <= j < frames.len() ==> whole_frame(#[trigger] frames[j], scopes)
}

/// Whether every function in the state is whole and every tree in it plain.
pub open spec fn whole_state(m: Machine) -> bool {
    &&& whole_scopes(m.scopes)
    &&& whole_frames(m.frames, m.scopes)
    &&& plain_stmts(m.program)
}

/// Every scope that a function keeps among `before` is among `after` as it
/// was.
pub open spec fn extends(before: Seq<ScopeModel>, after: Seq<ScopeModel>) -> bool {
    forall|i: int| 0 <= i < before.len() && (#[trigger] before[i]).kept ==> persists(before, after, i)
}

/// A whole value stays whole where the kept scopes stay.
pub proof fn lemma_whole_stays(value: LiteralType, before: Seq<ScopeModel>, after: Seq<ScopeModel>)
    requires
        whole(value, before),
        extends(before, after),
    ensures
        whole(value, after),
{
}

/// Whole arguments stay whole where the kept scopes stay.
pub proof fn lemma_whole_arguments_stay(
    arguments: Arguments,
    before: Seq<ScopeModel>,
    after: Seq<ScopeModel>,
)
    requires
        whole_arguments(arguments, before),
        extends(before, after),
    ensures
        whole_arguments(arguments, after),
    decreases arguments,
{
    match arguments {
        Arguments::Empty => {},
        Arguments::Then(rest, last) => {
            lemma_whole_arguments_stay(*rest, before, after);
        },
    }
}

/// Whole frames stay whole where the kept scopes stay.
pub proof fn lemma_whole_frames_stay(
    frames: Seq<Frame>,
    before: Seq<ScopeModel>,
    after: Seq<ScopeModel>,
)
    requires
        whole_frames(frames, before),
        extends(before, after),
    ensures
        whole_frames(frames, after),
{
    assert forall|j: int| 0 <= j < frames.len() implies whole_frame(#[trigger] frames[j], after) by {
        assert(whole_frame(frames[j], before));
        match frames[j] {
            Frame::Argument { node, callee, arguments, count } => {
                lemma_whole_arguments_stay(arguments, before, after);
            },
            _ => {},
        }
    }
}

/// The values of whole arguments are whole.
pub proof fn lemma_whole_arguments_listed(arguments: Arguments, scopes: Seq<ScopeModel>)
    requires
        whole_arguments(arguments, scopes),
    ensures
        whole_values(arguments.listed(), scopes),
    decreases arguments,
{
    match arguments {
        Arguments::Empty => {},
        Arguments::Then(rest, last) => {
            lemma_whole_arguments_listed(*rest, scopes);
        },
    }
}

/// Binding a whole value keeps the bound values whole and the kept scopes
/// as they are.
pub proof fn lemma_bind_keeps_whole(
    scopes: Seq<ScopeModel>,
    scope: int,
    name: Seq<char>,
    value: LiteralType,
)
    requires
        whole_scopes(scopes),
        0 <= scope < scopes.len(),
        whole(value, scopes),
    ensures
        whole_scopes(bind(scopes, scope, name, value)),
        extends(scopes, bind(scopes, scope, name, value)),
        bind(scopes, scope, name, value).len() == scopes.len(),
{
    let after = bind(scopes, scope, name, value);
    assert forall|i: int, other: Seq<char>|
        0 <= i < after.len() && after[i].bindings.contains_key(other) implies whole(
        #[trigger] after[i].bindings[other],
        after,
    ) by {
        if i == scope && other == name {
        } else {
            assert(scopes[i].bindings.contains_key(other));
            assert(whole(scopes[i].bindings[other], scopes));
        }
    }
}

/// Marking a scope as kept keeps the bound values whole and the kept scopes
/// as they are.
pub proof fn lemma_keep_keeps_whole(scopes: Seq<ScopeModel>, scope: int)
    requires
        whole_scopes(scopes),
        0 <= scope < scopes.len(),
    ensures
        whole_scopes(keep(scopes, scope)),
        extends(scopes, keep(scopes, scope)),
        keep(scopes, scope).len() == scopes.len(),
        keep(scopes, scope)[scope].kept,
{
    let after = keep(scopes, scope);
    assert forall|i: int, other: Seq<char>|
        0 <= i < after.len() && after[i].bindings.contains_key(other) implies whole(
        #[trigger] after[i].bindings[other],
        after,
    ) by {
        assert(scopes[i].bindings.contains_key(other));
        assert(whole(scopes[i].bindings[other], scopes));
    }
}

/// A new scope keeps the bound values whole and the kept scopes as they are.
pub proof fn lemma_push_keeps_whole(scopes: Seq<ScopeModel>, enclosing: usize)
    requires
        whole_scopes(scopes),
    ensures
        whole_scopes(scopes.push(empty_scope(Some(enclosing)))),
        extends(scopes, scopes.push(empty_scope(Some(enclosing)))),
{
    let after = scopes.push(empty_scope(Some(enclosing)));
    assert forall|i: int, other: Seq<char>|
        0 <= i < after.len() && after[i].bindings.contains_key(other) implies whole(
        #[trigger] after[i].bindings[other],
        after,
    ) by {
        if i < scopes.len() {
            assert(scopes[i].bindings.contains_key(other));
            assert(whole(scopes[i].bindings[other], scopes));
        }
    }
}

/// Leaving a scope keeps the bound values whole and the kept scopes as they
/// are.
pub proof fn lemma_left_keeps_whole(m: Machine, saved: usize)
    requires
        whole_scopes(m.scopes),
        m.scope < m.scopes.len(),
    ensures
        whole_scopes(m.left(saved).scopes),
        extends(m.scopes, m.left(saved).scopes),
{
    let after = m.left(saved).scopes;
    assert forall|i: int, other: Seq<char>|
        0 <= i < after.len() && after[i].bindings.contains_key(other) implies whole(
        #[trigger] after[i].bindings[other],
        after,
    ) by {
        assert(m.scopes[i].bindings.contains_key(other));
        assert(whole(m.scopes[i].bindings[other], m.scopes));
    }
}

/// Whether every function in the state after a step is whole and every tree
/// in it plain.
pub open spec fn whole_outcome(outcome: Outcome) -> bool {
    whole_state(outcome.machine) && whole_next(outcome.next, outcome.machine.scopes)
}

proof fn lemma_pushed(m: Machine, frame: Frame)
    requires
        whole_state(m),
        whole_frame(frame, m.scopes),
    ensures
        whole_state(m.pushed(frame)),
{
    let after = m.frames.push(frame);
    assert forall|j: int| 0 <= j < after.len() implies whole_frame(#[trigger] after[j], m.scopes) by {
        if j < m.frames.len() {
            assert(whole_frame(m.frames[j], m.scopes));
        }
    }
}

proof fn lemma_popped(m: Machine)
    requires
        whole_state(m),
        m.frames.len() > 0,
    ensures
        whole_state(m.popped()),
        whole_frame(m.frames.last(), m.scopes),
{
    let after = m.frames.drop_last();
    assert(whole_frame(m.frames[m.frames.len() - 1], m.scopes));
    assert forall|j: int| 0 <= j < after.len() implies whole_frame(#[trigger] after[j], m.scopes) by {
        assert(whole_frame(m.frames[j], m.scopes));
    }
}

proof fn lemma_over(m: Machine, scopes: Seq<ScopeModel>)
    requires
        whole_state(m),
        whole_scopes(scopes),
        extends(m.scopes, scopes),
    ensures
        whole_state(m.over(scopes)),
        whole_state(m.over(scopes).within(m.scope)),
{
    lemma_whole_frames_stay(m.frames, m.scopes, scopes);
}

/// What a name means in whole scopes is whole.
pub proof fn lemma_lookup_is_whole(scopes: Seq<ScopeModel>, scope: int, name: Seq<char>)
    requires
        whole_scopes(scopes),
    ensures
        lookup(scopes, scope, name) matches Some(value) ==> whole(value, scopes),
{
    lemma_resolve_in_range(scopes, scope, name);
}

proof fn lemma_evaluation_whole(m: Machine, expr: Rc<Expr>)
    requires
        whole_state(m),
        plain_expr(*expr),
    ensures
        whole_outcome(evaluation(m, expr)),
{
    match *expr {
        Expr::Literal(value) => {},
        Expr::Group(inner) => {},
        Expr::Variable(name) => {
            lemma_lookup_is_whole(m.scopes, m.scope as int, name.lexeme@);
        },
        Expr::Unary { operator, right } => {
            lemma_pushed(m, Frame::Unary(expr));
        },
        Expr::Binary { left, operator, right } => {
            lemma_pushed(m, Frame::BinaryLeft(expr));
        },
        Expr::Logical { left, operator, right } => {
            lemma_pushed(m, Frame::LogicalLeft(expr));
        },
        Expr::Assign { name, value } => {
            lemma_pushed(m, Frame::Assign(expr));
        },
        Expr::Call { callee, paren, args } => {
            lemma_pushed(m, Frame::Callee(expr));
        },
    }
}

proof fn lemma_assignment_whole(m: Machine, name: Token, value: LiteralType)
    requires
        whole_state(m),
        whole(value, m.scopes),
    ensures
        whole_outcome(assignment(m, name, value)),
{
    lemma_resolve_in_range(m.scopes, m.scope as int, name.lexeme@);
    match resolve(m.scopes, m.scope as int, name.lexeme@) {
        Some(holder) => {
            lemma_bind_keeps_whole(m.scopes, holder, name.lexeme@, value);
            lemma_over(m, bind(m.scopes, holder, name.lexeme@, value));
        },
        None => {},
    }
}

/// Binding whole arguments keeps the bound values whole and the kept scopes
/// as they are.
proof fn lemma_parameters_keep_whole(
    scopes: Seq<ScopeModel>,
    scope: int,
    params: Seq<Token>,
    args: Seq<LiteralType>,
    count: nat,
)
    requires
        whole_scopes(scopes),
        0 <= scope < scopes.len(),
        count <= args.len(),
        whole_values(args, scopes),
    ensures
        whole_scopes(bind_parameters(scopes, scope, params, args, count)),
        extends(scopes, bind_parameters(scopes, scope, params, args, count)),
        bind_parameters(scopes, scope, params, args, count).len() == scopes.len(),
    decreases count,
{
    if count > 0 {
        let before = bind_parameters(scopes, scope, params, args, (count - 1) as nat);
        lemma_parameters_keep_whole(scopes, scope, params, args, (count - 1) as nat);
        assert(whole(args[count - 1], scopes));
        lemma_whole_stays(args[count - 1], scopes, before);
        lemma_bind_keeps_whole(before, scope, params[count - 1].lexeme@, args[count - 1]);
    }
}

proof fn lemma_native_whole(m: Machine, paren: Token, kind: NativeKind, args: Seq<LiteralType>)
    requires
        whole_state(m),
    ensures
        whole_outcome(native(m, paren, kind, args)),
{
    match kind {
        NativeKind::Print => {
            lemma_pushed(m, Frame::Write { newline: false });
        },
        NativeKind::PrintLn => {
            lemma_pushed(m, Frame::Write { newline: true });
        },
        NativeKind::Input => {},
        NativeKind::InputPrompt => {
            lemma_pushed(m, Frame::Prompt);
        },
        NativeKind::Int => {
            lemma_pushed(m, Frame::IntTruncated);
            lemma_pushed(m, Frame::IntParsed { paren });
        },
        NativeKind::Str => {},
    }
}

proof fn lemma_invocation_whole(m: Machine, paren: Token, callee: LiteralType, args: Seq<LiteralType>)
    requires
        whole_state(m),
        m.scope < m.scopes.len() <= usize::MAX,
        whole(callee, m.scopes),
        whole_values(args, m.scopes),
    ensures
        whole_outcome(invocation(m, paren, callee, args)),
{
    match callee {
        LiteralType::Function { declaration, closure } => {
            match *declaration {
                Stmt::FunctionDecl { name, params, body } => {
                    if args.len() == params@.len() {
                        let fresh = m.scopes.push(empty_scope(Some(closure)));
                        let scope = m.scopes.len() as int;
                        lemma_push_keeps_whole(m.scopes, closure);
                        assert(whole_values(args, fresh)) by {
                            assert forall|i: int| 0 <= i < args.len() implies whole(
                                #[trigger] args[i],
                                fresh,
                            ) by {
                                lemma_whole_stays(args[i], m.scopes, fresh);
                            }
                        }
                        lemma_parameters_keep_whole(fresh, scope, params@, args, params@.len());
                        let bound = bind_parameters(fresh, scope, params@, args, params@.len());
                        assert(extends(m.scopes, bound));
                        lemma_over(m, bound);
                        lemma_pushed(m.over(bound), Frame::Call);
                        lemma_pushed(
                            m.over(bound).pushed(Frame::Call).within(m.scopes.len() as usize),
                            Frame::Block { node: declaration, next: 0, saved: m.scope },
                        );
                    }
                },
                _ => {},
            }
        },
        LiteralType::NativeFunction { name, arity, func } => {
            lemma_native_whole(m, paren, func, args);
        },
        _ => {},
    }
}

proof fn lemma_execution_whole(m: Machine, stmt: Rc<Stmt>)
    requires
        whole_state(m),
        m.scope < m.scopes.len() <= usize::MAX,
        plain_stmt(*stmt),
    ensures
        whole_outcome(execution(m, stmt)),
{
    match *stmt {
        Stmt::Expression(expr) => {
            lemma_pushed(m, Frame::Expression);
        },
        Stmt::Block(statements) => {
            let fresh = m.scopes.push(empty_scope(Some(m.scope)));
            lemma_push_keeps_whole(m.scopes, m.scope);
            lemma_over(m, fresh);
            lemma_pushed(
                m.over(fresh).within(m.scopes.len() as usize),
                Frame::Block { node: stmt, next: 0, saved: m.scope },
            );
        },
        Stmt::VarDecl { name, initializer } => {
            match initializer {
                Some(expr) => {
                    lemma_pushed(m, Frame::VarDecl(stmt));
                },
                None => {
                    lemma_bind_keeps_whole(m.scopes, m.scope as int, name.lexeme@, LiteralType::Nil);
                    lemma_over(m, bind(m.scopes, m.scope as int, name.lexeme@, LiteralType::Nil));
                },
            }
        },
        Stmt::While { condition, body } => {
            lemma_pushed(m, Frame::WhileCondition(stmt));
        },
        Stmt::ForRange { name, range_start, range_end, body } => {
            lemma_pushed(m, Frame::RangeStart(stmt));
        },
        Stmt::If { condition, then_branch, else_branch } => {
            lemma_pushed(m, Frame::If(stmt));
        },
        Stmt::FunctionDecl { name, params, body } => {
            let function = LiteralType::Function { declaration: stmt, closure: m.scope };
            let kept = keep(m.scopes, m.scope as int);
            lemma_keep_keeps_whole(m.scopes, m.scope as int);
            lemma_bind_keeps_whole(kept, m.scope as int, name.lexeme@, function);
            let bound = bind(kept, m.scope as int, name.lexeme@, function);
            assert(extends(m.scopes, bound));
            lemma_over(m, bound);
        },
        Stmt::Return { keyword, value } => {
            lemma_pushed(m, Frame::Return);
        },
    }
}

proof fn lemma_call_whole(m: Machine, frame: Frame, value: LiteralType)
    requires
        whole_state(m),
        m.scope < m.scopes.len() <= usize::MAX,
        whole_frame(frame, m.scopes),
        whole(value, m.scopes),
        frame is Callee || frame is Argument,
    ensures
        whole_outcome(value_continuation(m, frame, value)),
{
    match frame {
        Frame::Callee(node) => {
            match *node {
                Expr::Call { callee: _, paren, args } => {
                    if args@.len() == 0 {
                        lemma_invocation_whole(m, paren, value, Seq::empty());
                    } else {
                        assert(plain_exprs(args@));
                        assert(plain_expr(*args@[0]));
                        lemma_pushed(
                            m,
                            Frame::Argument {
                                node,
                                callee: value,
                                arguments: Arguments::Empty,
                                count: 0,
                            },
                        );
                    }
                },
                _ => {},
            }
        },
        Frame::Argument { node, callee, arguments, count } => {
            match *node {
                Expr::Call { callee: _, paren, args } => {
                    if count + 1 < args@.len() {
                        assert(plain_exprs(args@));
                        assert(plain_expr(*args@[count + 1]));
                        lemma_pushed(
                            m,
                            Frame::Argument {
                                node,
                                callee,
                                arguments: Arguments::Then(Box::new(arguments), value),
                                count: (count + 1) as usize,
                            },
                        );
                    } else {
                        lemma_whole_arguments_listed(arguments, m.scopes);
                        lemma_invocation_whole(m, paren, callee, arguments.listed().push(value));
                    }
                },
                _ => {},
            }
        },
        _ => {},
    }
}

proof fn lemma_statement_value_whole(m: Machine, frame: Frame, value: LiteralType)
    requires
        whole_state(m),
        m.scope < m.scopes.len() <= usize::MAX,
        whole_frame(frame, m.scopes),
        whole(value, m.scopes),
        frame is VarDecl || frame is If || frame is WhileCondition || frame is RangeStart
            || frame is RangeEnd || frame is RangeBound || frame is RangeAssign,
    ensures
        whole_outcome(value_continuation(m, frame, value)),
{
    match frame {
        Frame::VarDecl(node) => {
            match *node {
                Stmt::VarDecl { name, initializer } => {
                    lemma_bind_keeps_whole(m.scopes, m.scope as int, name.lexeme@, value);
                    lemma_over(m, bind(m.scopes, m.scope as int, name.lexeme@, value));
                },
                _ => {},
            }
        },
        Frame::If(node) => {},
        Frame::WhileCondition(node) => {
            lemma_pushed(m, Frame::WhileBody(node));
        },
        Frame::RangeStart(node) => {
            lemma_pushed(m, Frame::RangeEnd { node, start: value });
        },
        Frame::RangeEnd { node, start } => {
            match (start, value) {
                (LiteralType::Number(first), LiteralType::Number(last)) => {
                    lemma_pushed(m, Frame::RangeBound { node, start: first });
                },
                _ => {},
            }
        },
        Frame::RangeBound { node, start } => {
            match value {
                LiteralType::Number(bits) => {
                    lemma_pushed(m, Frame::RangeFirst { node, start, bound: bits });
                },
                _ => {},
            }
        },
        Frame::RangeAssign { node, following, last, saved } => {
            match *node {
                Stmt::ForRange { name, range_start, range_end, body } => {
                    lemma_resolve_in_range(m.scopes, m.scope as int, name.lexeme@);
                    match resolve(
                        m.scopes,
                        m.scope as int,
                        name.lexeme@,
                    ) {
                        Some(holder) => {
                            let bound = bind(m.scopes, holder, name.lexeme@, value);
                            lemma_bind_keeps_whole(m.scopes, holder, name.lexeme@, value);
                            lemma_over(m, bound);
                            lemma_pushed(
                                m.over(bound),
                                Frame::Range { node, next: following, last, saved },
                            );
                        },
                        None => {},
                    }
                },
                _ => {},
            }
        },
        _ => {},
    }
}

proof fn lemma_value_whole(m: Machine, frame: Frame, value: LiteralType)
    requires
        whole_state(m),
        m.scope < m.scopes.len() <= usize::MAX,
        whole_frame(frame, m.scopes),
        whole(value, m.scopes),
    ensures
        whole_outcome(value_continuation(m, frame, value)),
{
    match frame {
        Frame::Unary(node) => {},
        Frame::BinaryLeft(node) => {
            lemma_pushed(m, Frame::BinaryRight { node, left: value });
        },
        Frame::BinaryRight { node, left } => {},
        Frame::LogicalLeft(node) => {},
        Frame::Assign(node) => {
            match *node {
                Expr::Assign { name, value: _ } => {
                    lemma_assignment_whole(m, name, value);
                },
                _ => {},
            }
        },
        Frame::Callee(node) => {
            lemma_call_whole(m, frame, value);
        },
        Frame::Argument { node, callee, arguments, count } => {
            lemma_call_whole(m, frame, value);
        },
        Frame::Expression => {},
        Frame::Return => {},
        Frame::Write { newline } => {},
        Frame::Prompt => {
            lemma_pushed(m, Frame::Strip);
        },
        Frame::Strip => {},
        Frame::VarDecl(_) => {
            lemma_statement_value_whole(m, frame, value);
        },
        Frame::If(_) => {
            lemma_statement_value_whole(m, frame, value);
        },
        Frame::WhileCondition(_) => {
            lemma_statement_value_whole(m, frame, value);
        },
        Frame::RangeStart(_) => {
            lemma_statement_value_whole(m, frame, value);
        },
        Frame::RangeEnd { .. } => {
            lemma_statement_value_whole(m, frame, value);
        },
        Frame::RangeBound { .. } => {
            lemma_statement_value_whole(m, frame, value);
        },
        Frame::RangeAssign { .. } => {
            lemma_statement_value_whole(m, frame, value);
        },
        _ => {},
    }
}

proof fn lemma_left_whole(m: Machine, saved: usize)
    requires
        whole_state(m),
        m.scope < m.scopes.len(),
    ensures
        whole_state(m.left(saved)),
        extends(m.scopes, m.left(saved).scopes),
{
    lemma_left_keeps_whole(m, saved);
    lemma_whole_frames_stay(m.frames, m.scopes, m.left(saved).scopes);
}

proof fn lemma_completion_whole(m: Machine, frame: Frame, end: Option<LiteralType>)
    requires
        whole_state(m),
        m.scope < m.scopes.len() <= usize::MAX,
        whole_frame(frame, m.scopes),
        end matches Some(value) ==> whole(value, m.scopes),
    ensures
        whole_outcome(completion(m, frame, end)),
{
    match frame {
        Frame::Block { node, next, saved } => {
            lemma_left_whole(m, saved);
            if end is Some {
                lemma_whole_stays(end->0, m.scopes, m.left(saved).scopes);
            } else {
                match *node {
                    Stmt::Block(statements) => {
                        if next < statements@.len() {
                            assert(plain_stmts(statements@));
                            assert(plain_stmt(*statements@[next as int]));
                        }
                    },
                    Stmt::FunctionDecl { name, params, body } => {
                        if next < body@.len() {
                            assert(plain_stmts(body@));
                            assert(plain_stmt(*body@[next as int]));
                        }
                    },
                    _ => {},
                }
                lemma_pushed(m, Frame::Block { node, next: (next + 1) as usize, saved });
            }
        },
        Frame::Call => {},
        Frame::WhileBody(node) => {
            lemma_pushed(m, Frame::WhileCondition(node));
        },
        Frame::Range { node, next, last, saved } => {
            lemma_left_whole(m, saved);
            if end is Some {
                lemma_whole_stays(end->0, m.scopes, m.left(saved).scopes);
            } else if next < last {
                lemma_pushed(
                    m,
                    Frame::RangeAssign { node, following: (next + 1) as i32, last, saved },
                );
            }
        },
        Frame::Program { next } => {
            if next < m.program.len() {
                assert(plain_stmt(*m.program[next as int]));
                lemma_pushed(m, Frame::Program { next: (next + 1) as usize });
            }
        },
        _ => {},
    }
}

proof fn lemma_integer_whole(m: Machine, frame: Frame, integer: i32)
    requires
        whole_state(m),
        m.scope < m.scopes.len() <= usize::MAX,
        whole_frame(frame, m.scopes),
    ensures
        whole_outcome(integer_continuation(m, frame, integer)),
{
    match frame {
        Frame::RangeFirst { node, start, bound } => {
            lemma_pushed(m, Frame::RangeLast { node, start, first: integer });
        },
        Frame::RangeLast { node, start, first } => {
            match *node {
                Stmt::ForRange { name, range_start, range_end, body } => {
                    let fresh = m.scopes.push(empty_scope(Some(m.scope)));
                    lemma_push_keeps_whole(m.scopes, m.scope);
                    let value = LiteralType::Number(start);
                    lemma_bind_keeps_whole(fresh, m.scopes.len() as int, name.lexeme@, value);
                    let bound = bind(fresh, m.scopes.len() as int, name.lexeme@, value);
                    assert(extends(m.scopes, bound));
                    lemma_over(m, bound);
                    lemma_pushed(
                        m.over(bound).within(m.scopes.len() as usize),
                        Frame::Range { node, next: first, last: integer, saved: m.scope },
                    );
                },
                _ => {},
            }
        },
        Frame::IntTruncated => {},
        _ => {},
    }
}

proof fn lemma_parsed_whole(m: Machine, frame: Frame, parsed: Option<u32>)
    requires
        whole_state(m),
        whole_frame(frame, m.scopes),
    ensures
        whole_outcome(parsed_continuation(m, frame, parsed)),
{
    match frame {
        Frame::IntParsed { paren } => {
            lemma_pushed(m, Frame::IntTruncated);
        },
        _ => {},
    }
}

/// Functions stay whole: where every function in a state has a scope that
/// exists and is kept, and every tree in the state is plain, the same holds
/// after every step. So in a run of a plain program, from scopes that bind no
/// function but the native ones, every function that is ever called has the
/// scope it was declared in.
pub proof fn lemma_step_keeps_functions_whole(m: Machine, control: Control, event: Event)
    requires
        m.scope < m.scopes.len() <= usize::MAX,
        whole_state(m),
        whole_control(control, m.scopes),
        (control is Value || control is Completed || control is Integer || control is Parsed)
            ==> m.frames.len() > 0,
    ensures
        whole_outcome(stepped(m, control, event)),
{
    match control {
        Control::Evaluate(expr) => {
            lemma_evaluation_whole(m, expr);
        },
        Control::Execute(stmt) => {
            lemma_execution_whole(m, stmt);
        },
        Control::Value(value) => {
            lemma_popped(m);
            lemma_value_whole(m.popped(), m.frames.last(), value);
        },
        Control::Completed(end) => {
            lemma_popped(m);
            lemma_completion_whole(m.popped(), m.frames.last(), end);
        },
        Control::Integer(integer) => {
            lemma_popped(m);
            lemma_integer_whole(m.popped(), m.frames.last(), integer);
        },
        Control::Parsed(parsed) => {
            lemma_popped(m);
            lemma_parsed_whole(m.popped(), m.frames.last(), parsed);
        },
        Control::Awaiting(request) => {},
        Control::Finished => {},
        Control::Failed(_) => {},
    }
}

/// A call of a whole function with as many arguments as it takes never
/// fails: its body is entered in a new scope inside the scope it keeps.
pub proof fn lemma_whole_function_can_be_called(
    m: Machine,
    paren: Token,
    callee: LiteralType,
    args: Seq<LiteralType>,
)
    requires
        callee is Function,
        whole(callee, m.scopes),
        *callee->declaration matches Stmt::FunctionDecl { name, params, body } && params@.len()
            == args.len(),
    ensures
        !(invocation(m, paren, callee, args).next is Failure),
        invocation(m, paren, callee, args).machine.scope == m.scopes.len() as usize,
{
}

/// Scopes that bind the native functions and nothing else bind whole values.
pub proof fn lemma_natives_are_whole(scopes: Seq<ScopeModel>)
    requires
        scopes.len() == 1,
        holds_natives(scopes[0].bindings),
    ensures
        whole_scopes(scopes),
{
    assert forall|i: int, name: Seq<char>|
        0 <= i < scopes.len() && scopes[i].bindings.contains_key(name) implies whole(
        #[trigger] scopes[i].bindings[name],
        scopes,
    ) by {
        let kind = choose|kind: NativeKind|
            name == native_name(kind);
        assert(scopes[0].bindings.contains_key(native_name(kind)));
    }
}

impl Interpreter {
    /// Every function in the interpreter has a scope that exists and is kept,
    /// and every tree in it is plain.
    pub open spec fn whole(&self) -> bool {
        whole_state(self@) && whole_control(self.control, self@.scopes)
    }
}

/// An interpreter that is whole is whole after a step.
pub proof fn lemma_whole_after_step(pre: Interpreter, event: Event, post: Interpreter)
    requires
        pre.wf(),
        pre.whole(),
        post.lands(stepped(pre@, pre.control, event)),
    ensures
        post.whole(),
{
    assert(pre@.scopes.len() == pre.environment.scopes.len());
    lemma_step_keeps_functions_whole(pre@, pre.control, event);
}

} // verus!
