use crate::ast::{Expr, Stmt};
use crate::interpreter::calls::{bind_parameters, invocation};
use crate::interpreter::environment::{
    empty_scope, lemma_resolve_in_range, lookup, ScopeModel,
};
use crate::interpreter::host::Event;
use crate::interpreter::machine::{Control, Frame, Machine};
use crate::interpreter::statements::execution;
use crate::interpreter::stepped;
use std::rc::Rc;
use crate::token::Token;
use crate::types::LiteralType;
use vstd::prelude::*;

verus! {

/// Whether the scope at `scope` is among `after` as it was among `before`:
/// kept by a function, and inside the same scope.
pub open spec fn persists(before: Seq<ScopeModel>, after: Seq<ScopeModel>, scope: int) -> bool {
    &&& scope < after.len()
    &&& after[scope].kept
    &&& after[scope].enclosing == before[scope].enclosing
}

/// Binding parameters keeps every scope as it is but for the bindings of the
/// scope they are bound in.
pub proof fn lemma_parameters_keep_scopes(
    scopes: Seq<ScopeModel>,
    scope: int,
    params: Seq<Token>,
    args: Seq<LiteralType>,
    count: nat,
    other: int,
)
    requires
        0 <= scope < scopes.len(),
        0 <= other < scopes.len(),
    ensures
        bind_parameters(scopes, scope, params, args, count).len() == scopes.len(),
        bind_parameters(scopes, scope, params, args, count)[other].kept == scopes[other].kept,
        bind_parameters(scopes, scope, params, args, count)[other].enclosing
            == scopes[other].enclosing,
    decreases count,
{
    if count > 0 {
        lemma_parameters_keep_scopes(scopes, scope, params, args, (count - 1) as nat, other);
    }
}

proof fn lemma_call_keeps_kept_scopes(
    m: Machine,
    paren: Token,
    callee: LiteralType,
    args: Seq<LiteralType>,
    scope: int,
)
    requires
        0 <= scope < m.scopes.len(),
        m.scopes[scope].kept,
    ensures
        persists(m.scopes, invocation(m, paren, callee, args).machine.scopes, scope),
{
    match callee {
        LiteralType::Function { declaration, closure } => {
            match *declaration {
                Stmt::FunctionDecl { name, params, body } => {
                    if closure < m.scopes.len() {
                        lemma_parameters_keep_scopes(
                            m.scopes.push(empty_scope(Some(closure))),
                            m.scopes.len() as int,
                            params@,
                            args,
                            params@.len(),
                            scope,
                        );
                    }
                },
                _ => {},
            }
        },
        _ => {},
    }
}

/// A scope that a function was declared in outlives every step: whatever the
/// interpreter does next, the scope is not discarded, stays kept, and stays
/// inside the scope it was made in. So a function finds its scope at every
/// later call, with whatever was assigned there in between.
pub proof fn lemma_step_keeps_kept_scopes(m: Machine, control: Control, event: Event, scope: int)
    requires
        0 <= scope < m.scopes.len(),
        m.scope < m.scopes.len(),
        m.scopes[scope].kept,
    ensures
        persists(m.scopes, stepped(m, control, event).machine.scopes, scope),
{
    match control {
        Control::Evaluate(expr) => {},
        Control::Execute(stmt) => {},
        Control::Value(value) => {
            let rest = m.popped();
            match m.frames.last() {
                Frame::Assign(node) => {
                    match *node {
                        Expr::Assign { name, value: _ } => {
                            lemma_resolve_in_range(m.scopes, m.scope as int, name.lexeme@);
                        },
                        _ => {},
                    }
                },
                Frame::Callee(node) => {
                    match *node {
                        Expr::Call { callee: _, paren, args } => {
                            lemma_call_keeps_kept_scopes(rest, paren, value, Seq::empty(), scope);
                        },
                        _ => {},
                    }
                },
                Frame::Argument { node, callee, arguments, count } => {
                    match *node {
                        Expr::Call { callee: _, paren, args } => {
                            lemma_call_keeps_kept_scopes(
                                rest,
                                paren,
                                callee,
                                arguments.listed().push(value),
                                scope,
                            );
                        },
                        _ => {},
                    }
                },
                Frame::RangeAssign { node, following, last, saved } => {
                    match *node {
                        Stmt::ForRange { name, range_start, range_end, body } => {
                            lemma_resolve_in_range(m.scopes, m.scope as int, name.lexeme@);
                        },
                        _ => {},
                    }
                },
                _ => {},
            }
        },
        Control::Completed(end) => {},
        Control::Integer(integer) => {},
        Control::Parsed(parsed) => {},
        Control::Awaiting(request) => {},
        Control::Finished => {},
        Control::Failed(_) => {},
    }
}

/// Whether a value, if it is a function, has a scope that exists and that a
/// function keeps.
pub open spec fn settled(value: LiteralType, scopes: Seq<ScopeModel>) -> bool {
    value matches LiteralType::Function { declaration, closure } ==> closure < scopes.len()
        && scopes[closure as int].kept
}

/// The function that a declaration makes has the current scope as its scope,
/// and that scope exists and is kept from then on. The declared name is bound
/// to the function in the current scope.
pub proof fn lemma_declared_function_is_settled(m: Machine, stmt: Rc<Stmt>)
    requires
        m.scope < m.scopes.len(),
        *stmt is FunctionDecl,
    ensures
        ({
            let after = execution(m, stmt).machine;
            let function = LiteralType::Function { declaration: stmt, closure: m.scope };
            &&& settled(function, after.scopes)
            &&& *stmt matches Stmt::FunctionDecl { name, params, body } && lookup(
                after.scopes,
                after.scope as int,
                name.lexeme@,
            ) == Some(function)
        }),
{
}

/// A function whose scope exists and is kept stays so, whatever the
/// interpreter does next: no step takes the scope of a function away.
pub proof fn lemma_function_stays_settled(
    m: Machine,
    control: Control,
    event: Event,
    value: LiteralType,
)
    requires
        m.scope < m.scopes.len(),
        settled(value, m.scopes),
    ensures
        settled(value, stepped(m, control, event).machine.scopes),
{
    match value {
        LiteralType::Function { declaration, closure } => {
            lemma_step_keeps_kept_scopes(m, control, event, closure as int);
        },
        _ => {},
    }
}

} // verus!
