use crate::ast::Stmt;
use crate::interpreter::calls::block_entry;
use crate::interpreter::environment::{bind, empty_scope, keep, resolve};
use crate::interpreter::host::{ArithmeticOp, Request};
use crate::interpreter::machine::{
    fits, lemma_ordered_under_newer, ordered, statements_of, truthy, Control, Frame, Kind,
    Machine, Outcome,
};
use crate::interpreter::Interpreter;
use crate::types::{share, LiteralType};
use std::rc::Rc;
use vstd::prelude::*;

verus! {

/// The bits of the number one.
pub const ONE: u32 = 0x3F80_0000;

/// The state with one more scope, inside the current one.
pub open spec fn nested(m: Machine) -> Machine {
    m.over(m.scopes.push(empty_scope(Some(m.scope))))
}

/// The first step of executing a statement. A block is entered in a new
/// scope inside the current one. A declaration without an initial value binds
/// its name to nil, and a function's declaration binds its name to the
/// function with the current scope as the scope it keeps, and marks that
/// scope as kept; both bind in the current scope itself. A loop without a condition ends at once. Every other
/// statement turns to its first expression and leaves a frame that waits for
/// it.
pub open spec fn execution(m: Machine, stmt: Rc<Stmt>) -> Outcome {
    match *stmt {
        Stmt::Expression(expr) => m.pushed(Frame::Expression).goes(Control::Evaluate(expr)),
        Stmt::Block(statements) => block_entry(nested(m), stmt, m.scopes.len() as usize),
        Stmt::VarDecl { name, initializer } => match initializer {
            Some(expr) => m.pushed(Frame::VarDecl(stmt)).goes(Control::Evaluate(expr)),
            None => m.over(bind(m.scopes, m.scope as int, name.lexeme@, LiteralType::Nil)).goes(
                Control::Completed(None),
            ),
        },
        Stmt::While { condition, body } => match condition {
            Some(expr) => m.pushed(Frame::WhileCondition(stmt)).goes(Control::Evaluate(expr)),
            None => m.goes(Control::Completed(None)),
        },
        Stmt::ForRange { name, range_start, range_end, body } => m.pushed(
            Frame::RangeStart(stmt),
        ).goes(Control::Evaluate(range_start)),
        Stmt::If { condition, then_branch, else_branch } => m.pushed(Frame::If(stmt)).goes(
            Control::Evaluate(condition),
        ),
        Stmt::FunctionDecl { name, params, body } => m.over(
            bind(
                keep(m.scopes, m.scope as int),
                m.scope as int,
                name.lexeme@,
                LiteralType::Function { declaration: stmt, closure: m.scope },
            ),
        ).goes(Control::Completed(None)),
        Stmt::Return { keyword, value } => m.pushed(Frame::Return).goes(Control::Evaluate(value)),
    }
}

/// A declaration once its initial value is known: the name is bound to it in
/// the current scope itself.
pub open spec fn declared(m: Machine, node: Rc<Stmt>, value: LiteralType) -> Outcome {
    match *node {
        Stmt::VarDecl { name, initializer } => m.over(
            bind(m.scopes, m.scope as int, name.lexeme@, value),
        ).goes(Control::Completed(None)),
        _ => m.goes(Control::Finished),
    }
}

/// An `if` once its condition is known: the branch that the condition picks
/// is executed, and nothing where it picks a branch that is not there.
pub open spec fn branched(m: Machine, node: Rc<Stmt>, value: LiteralType) -> Outcome {
    match *node {
        Stmt::If { condition, then_branch, else_branch } => if truthy(value) {
            m.goes(Control::Execute(then_branch))
        } else {
            match else_branch {
                Some(branch) => m.goes(Control::Execute(branch)),
                None => m.goes(Control::Completed(None)),
            }
        },
        _ => m.goes(Control::Finished),
    }
}

/// A `while` once its condition is known: the body is executed, or the loop
/// ends.
pub open spec fn tested(m: Machine, node: Rc<Stmt>, value: LiteralType) -> Outcome {
    match *node {
        Stmt::While { condition, body } => if truthy(value) {
            m.pushed(Frame::WhileBody(node)).goes(Control::Execute(body))
        } else {
            m.goes(Control::Completed(None))
        },
        _ => m.goes(Control::Finished),
    }
}

/// A `while` once its body has ended: a `return` ends the loop and is handed
/// on, else the condition is evaluated again.
pub open spec fn repeated(m: Machine, node: Rc<Stmt>, end: Option<LiteralType>) -> Outcome {
    match *node {
        Stmt::While { condition: Some(expr), body } => match end {
            Some(value) => m.goes(Control::Completed(Some(value))),
            None => m.pushed(Frame::WhileCondition(node)).goes(Control::Evaluate(expr)),
        },
        _ => m.goes(Control::Finished),
    }
}

/// A range loop once its first bound is known: the second is evaluated.
pub open spec fn range_started(m: Machine, node: Rc<Stmt>, start: LiteralType) -> Outcome {
    match *node {
        Stmt::ForRange { name, range_start, range_end, body } => m.pushed(
            Frame::RangeEnd { node, start },
        ).goes(Control::Evaluate(range_end)),
        _ => m.goes(Control::Finished),
    }
}

/// A range loop once both bounds are known: both must be numbers, and the
/// second plus one is asked of the host.
pub open spec fn range_ended(m: Machine, node: Rc<Stmt>, start: LiteralType, end: LiteralType) -> Outcome {
    match *node {
        Stmt::ForRange { name, range_start, range_end, body } => match (start, end) {
            (LiteralType::Number(first), LiteralType::Number(last)) => m.pushed(
                Frame::RangeBound { node, start: first },
            ).goes(
                Control::Awaiting(
                    Request::Arithmetic { operator: ArithmeticOp::Add, left: last, right: ONE },
                ),
            ),
            _ => m.fails(name, "range must be a number"@),
        },
        _ => m.goes(Control::Finished),
    }
}

/// A range loop once its second bound plus one is known: the first bound is
/// cut to an integer.
pub open spec fn range_bounded(m: Machine, node: Rc<Stmt>, start: u32, bound: LiteralType) -> Outcome {
    match *node {
        Stmt::ForRange { name, range_start, range_end, body } => match bound {
            LiteralType::Number(bits) => m.pushed(
                Frame::RangeFirst { node, start, bound: bits },
            ).goes(Control::Awaiting(Request::Truncate { number: start })),
            _ => m.fails(name, "range must be a number"@),
        },
        _ => m.goes(Control::Finished),
    }
}

/// A range loop once its first bound is an integer: the second bound plus one
/// is cut to an integer.
pub open spec fn range_first(m: Machine, node: Rc<Stmt>, start: u32, bound: u32, first: i32) -> Outcome {
    m.pushed(Frame::RangeLast { node, start, first }).goes(
        Control::Awaiting(Request::Truncate { number: bound }),
    )
}

/// A range loop once both bounds are integers: a new scope is made inside the
/// current one, the loop's variable is bound there to the first bound as it
/// was given, and the rounds begin.
pub open spec fn range_entered(m: Machine, node: Rc<Stmt>, start: u32, first: i32, last: i32) -> Outcome {
    match *node {
        Stmt::ForRange { name, range_start, range_end, body } => nested(m).over(
            bind(
                nested(m).scopes,
                m.scopes.len() as int,
                name.lexeme@,
                LiteralType::Number(start),
            ),
        ).within(m.scopes.len() as usize).pushed(
            Frame::Range { node, next: first, last, saved: m.scope },
        ).goes(Control::Completed(None)),
        _ => m.goes(Control::Finished),
    }
}

/// A range loop between rounds: a `return` ends the loop and is handed on;
/// else, while the next integer is below the end, its number is asked of the
/// host; else the loop ends. When the loop ends, its scope is left for the
/// scope of before the loop.
pub open spec fn range_round(
    m: Machine,
    node: Rc<Stmt>,
    next: i32,
    last: i32,
    saved: usize,
    end: Option<LiteralType>,
) -> Outcome {
    match end {
        Some(value) => m.left(saved).goes(Control::Completed(Some(value))),
        None => if next < last {
            m.pushed(
                Frame::RangeAssign { node, following: (next + 1) as i32, last, saved },
            ).goes(Control::Awaiting(Request::FromInteger { integer: next }))
        } else {
            m.left(saved).goes(Control::Completed(None))
        },
    }
}

/// A round of a range loop once its number is known: the number is assigned
/// to the loop's variable, and the body is executed.
pub open spec fn range_assigned(
    m: Machine,
    node: Rc<Stmt>,
    following: i32,
    last: i32,
    saved: usize,
    value: LiteralType,
) -> Outcome {
    match *node {
        Stmt::ForRange { name, range_start, range_end, body } => match resolve(
            m.scopes,
            m.scope as int,
            name.lexeme@,
        ) {
            Some(holder) => m.over(bind(m.scopes, holder, name.lexeme@, value)).pushed(
                Frame::Range { node, next: following, last, saved },
            ).goes(Control::Execute(body)),
            None => m.fails(name, "undefined variable"@),
        },
        _ => m.goes(Control::Finished),
    }
}

/// A block, or a function's body, between statements: a `return` ends it and
/// is handed on; else the next statement is executed, and after the last one
/// the block ends. When the block ends, its scope is left for the scope of
/// before the block.
pub open spec fn block_round(
    m: Machine,
    node: Rc<Stmt>,
    next: usize,
    saved: usize,
    end: Option<LiteralType>,
) -> Outcome {
    match end {
        Some(value) => m.left(saved).goes(Control::Completed(Some(value))),
        None => if next < statements_of(*node).len() {
            m.pushed(Frame::Block { node, next: (next + 1) as usize, saved }).goes(
                Control::Execute(statements_of(*node)[next as int]),
            )
        } else {
            m.left(saved).goes(Control::Completed(None))
        },
    }
}

/// A call once the function's body has ended: its value is the value
/// returned, or nil where the body ended without a `return`.
pub open spec fn returned(m: Machine, end: Option<LiteralType>) -> Outcome {
    match end {
        Some(value) => m.goes(Control::Value(value)),
        None => m.goes(Control::Value(LiteralType::Nil)),
    }
}

/// The program between statements: the next statement is executed, whether
/// or not a `return` ended the one before, and after the last one the run is
/// finished.
pub open spec fn program_round(m: Machine, next: usize) -> Outcome {
    if next < m.program.len() {
        m.pushed(Frame::Program { next: (next + 1) as usize }).goes(
            Control::Execute(m.program[next as int]),
        )
    } else {
        m.goes(Control::Finished)
    }
}

impl Interpreter {
    /// Takes the first step of executing `stmt`.
    pub fn execute(&mut self, stmt: Rc<Stmt>)
        requires
            old(self)@.wf(),
            fits(old(self).frames@, Some(Kind::Completed)),
        ensures
            final(self).lands(execution(old(self)@, stmt)),
            final(self).wf(),
    {
        match &*stmt {
            Stmt::Expression(expr) => {
                let first = share(expr);
                self.push(Frame::Expression);
                self.control = Control::Evaluate(first);
            },
            Stmt::Block(statements) => {
                let scope = self.environment.with_enclosing(self.scope);
                self.execute_block(stmt, scope);
            },
            Stmt::VarDecl { name, initializer } => match initializer {
                Some(expr) => {
                    let first = share(expr);
                    self.push(Frame::VarDecl(stmt));
                    self.control = Control::Evaluate(first);
                },
                None => {
                    self.environment.define(self.scope, name.lexeme.clone(), LiteralType::Nil);
                    self.control = Control::Completed(None);
                },
            },
            Stmt::While { condition, body } => match condition {
                Some(expr) => {
                    let first = share(expr);
                    self.push(Frame::WhileCondition(stmt));
                    self.control = Control::Evaluate(first);
                },
                None => {
                    self.control = Control::Completed(None);
                },
            },
            Stmt::ForRange { name, range_start, range_end, body } => {
                let first = share(range_start);
                self.push(Frame::RangeStart(stmt));
                self.control = Control::Evaluate(first);
            },
            Stmt::If { condition, then_branch, else_branch } => {
                let first = share(condition);
                self.push(Frame::If(stmt));
                self.control = Control::Evaluate(first);
            },
            Stmt::FunctionDecl { name, params, body } => {
                let key = name.lexeme.clone();
                let function = LiteralType::Function { declaration: stmt, closure: self.scope };
                self.environment.keep(self.scope);
                self.environment.define(self.scope, key, function);
                self.control = Control::Completed(None);
            },
            Stmt::Return { keyword, value } => {
                let first = share(value);
                self.push(Frame::Return);
                self.control = Control::Evaluate(first);
            },
        }
    }

    /// Binds a declared name to its initial value.
    pub fn declare(&mut self, node: Rc<Stmt>, value: LiteralType)
        requires
            old(self)@.wf(),
            fits(old(self).frames@, Some(Kind::Completed)),
            *node is VarDecl,
        ensures
            final(self).lands(declared(old(self)@, node, value)),
            final(self).wf(),
    {
        match &*node {
            Stmt::VarDecl { name, initializer } => {
                self.environment.define(self.scope, name.lexeme.clone(), value);
                self.control = Control::Completed(None);
            },
            _ => {},
        }
    }

    /// Picks the branch of an `if`.
    pub fn branch(&mut self, node: Rc<Stmt>, value: LiteralType)
        requires
            old(self)@.wf(),
            fits(old(self).frames@, Some(Kind::Completed)),
            *node is If,
        ensures
            final(self).lands(branched(old(self)@, node, value)),
            final(self).wf(),
    {
        match &*node {
            Stmt::If { condition, then_branch, else_branch } => {
                if Self::is_truthy(&value) {
                    self.control = Control::Execute(share(then_branch));
                } else {
                    match else_branch {
                        Some(branch) => {
                            self.control = Control::Execute(share(branch));
                        },
                        None => {
                            self.control = Control::Completed(None);
                        },
                    }
                }
            },
            _ => {},
        }
    }

    /// Goes into the body of a `while`, or ends the loop.
    pub fn test_loop(&mut self, node: Rc<Stmt>, value: LiteralType)
        requires
            old(self)@.wf(),
            fits(old(self).frames@, Some(Kind::Completed)),
            *node matches Stmt::While { condition: Some(_), .. },
        ensures
            final(self).lands(tested(old(self)@, node, value)),
            final(self).wf(),
    {
        match &*node {
            Stmt::While { condition, body } => {
                if Self::is_truthy(&value) {
                    let inner = share(body);
                    self.push(Frame::WhileBody(node));
                    self.control = Control::Execute(inner);
                } else {
                    self.control = Control::Completed(None);
                }
            },
            _ => {},
        }
    }

    /// Goes back to the condition of a `while`, or hands a `return` on.
    pub fn repeat_loop(&mut self, node: Rc<Stmt>, end: Option<LiteralType>)
        requires
            old(self)@.wf(),
            fits(old(self).frames@, Some(Kind::Completed)),
            *node matches Stmt::While { condition: Some(_), .. },
        ensures
            final(self).lands(repeated(old(self)@, node, end)),
            final(self).wf(),
    {
        match &*node {
            Stmt::While { condition: Some(expr), body } => match end {
                Some(value) => {
                    self.control = Control::Completed(Some(value));
                },
                None => {
                    let first = share(expr);
                    self.push(Frame::WhileCondition(node));
                    self.control = Control::Evaluate(first);
                },
            },
            _ => {},
        }
    }

    /// Goes on with a range loop once its first bound is known.
    pub fn start_range(&mut self, node: Rc<Stmt>, start: LiteralType)
        requires
            old(self)@.wf(),
            fits(old(self).frames@, Some(Kind::Completed)),
            *node is ForRange,
        ensures
            final(self).lands(range_started(old(self)@, node, start)),
            final(self).wf(),
    {
        match &*node {
            Stmt::ForRange { name, range_start, range_end, body } => {
                let second = share(range_end);
                self.push(Frame::RangeEnd { node, start });
                self.control = Control::Evaluate(second);
            },
            _ => {},
        }
    }

    /// Goes on with a range loop once both bounds are known.
    pub fn end_range(&mut self, node: Rc<Stmt>, start: LiteralType, end: LiteralType)
        requires
            old(self)@.wf(),
            fits(old(self).frames@, Some(Kind::Completed)),
            *node is ForRange,
        ensures
            final(self).lands(range_ended(old(self)@, node, start, end)),
            final(self).wf(),
    {
        match &*node {
            Stmt::ForRange { name, range_start, range_end, body } => match (start, end) {
                (LiteralType::Number(first), LiteralType::Number(last)) => {
                    self.push(Frame::RangeBound { node, start: first });
                    self.control = Control::Awaiting(
                        Request::Arithmetic { operator: ArithmeticOp::Add, left: last, right: ONE },
                    );
                },
                _ => {
                    self.fail(name.clone(), "range must be a number");
                },
            },
            _ => {},
        }
    }

    /// Goes on with a range loop once its second bound plus one is known.
    pub fn bound_range(&mut self, node: Rc<Stmt>, start: u32, bound: LiteralType)
        requires
            old(self)@.wf(),
            fits(old(self).frames@, Some(Kind::Completed)),
            *node is ForRange,
        ensures
            final(self).lands(range_bounded(old(self)@, node, start, bound)),
            final(self).wf(),
    {
        match &*node {
            Stmt::ForRange { name, range_start, range_end, body } => match bound {
                LiteralType::Number(bits) => {
                    self.push(Frame::RangeFirst { node, start, bound: bits });
                    self.control = Control::Awaiting(Request::Truncate { number: start });
                },
                _ => {
                    self.fail(name.clone(), "range must be a number");
                },
            },
            _ => {},
        }
    }

    /// Enters a range loop once both bounds are integers.
    pub fn enter_range(&mut self, node: Rc<Stmt>, start: u32, first: i32, last: i32)
        requires
            old(self)@.wf(),
            fits(old(self).frames@, Some(Kind::Completed)),
            *node is ForRange,
        ensures
            final(self).lands(range_entered(old(self)@, node, start, first, last)),
            final(self).wf(),
    {
        match &*node {
            Stmt::ForRange { name, range_start, range_end, body } => {
                let saved = self.scope;
                let scope = self.environment.with_enclosing(saved);
                self.environment.define(scope, name.lexeme.clone(), LiteralType::Number(start));
                self.scope = scope;
                proof {
                    lemma_ordered_under_newer(self.frames@, saved, scope);
                }
                self.push(Frame::Range { node, next: first, last, saved });
                self.control = Control::Completed(None);
            },
            _ => {},
        }
    }

    /// Begins the next round of a range loop, or ends the loop.
    pub fn round_range(
        &mut self,
        node: Rc<Stmt>,
        next: i32,
        last: i32,
        saved: usize,
        end: Option<LiteralType>,
    )
        requires
            old(self)@.wf(),
            fits(old(self).frames@, Some(Kind::Completed)),
            *node is ForRange,
            saved < old(self).scope,
            ordered(old(self).frames@, saved),
        ensures
            final(self).lands(range_round(old(self)@, node, next, last, saved, end)),
            final(self).wf(),
    {
        match end {
            Some(value) => {
                self.leave(saved);
                self.control = Control::Completed(Some(value));
            },
            None => {
                if next < last {
                    self.push(Frame::RangeAssign { node, following: next + 1, last, saved });
                    self.control = Control::Awaiting(Request::FromInteger { integer: next });
                } else {
                    self.leave(saved);
                    self.control = Control::Completed(None);
                }
            },
        }
    }

    /// Assigns the number of a round to the variable of a range loop and goes
    /// into the body.
    pub fn assign_range(
        &mut self,
        node: Rc<Stmt>,
        following: i32,
        last: i32,
        saved: usize,
        value: LiteralType,
    )
        requires
            old(self)@.wf(),
            fits(old(self).frames@, Some(Kind::Completed)),
            *node is ForRange,
            saved < old(self).scope,
            ordered(old(self).frames@, saved),
        ensures
            final(self).lands(range_assigned(old(self)@, node, following, last, saved, value)),
            final(self).wf(),
    {
        match &*node {
            Stmt::ForRange { name, range_start, range_end, body } => {
                match self.environment.assign(self.scope, name.clone(), value) {
                    Ok(()) => {
                        let inner = share(body);
                        self.push(Frame::Range { node, next: following, last, saved });
                        self.control = Control::Execute(inner);
                    },
                    Err(error) => {
                        self.control = Control::Failed(error);
                    },
                }
            },
            _ => {},
        }
    }

    /// Begins the next statement of a block, or ends the block.
    pub fn round_block(&mut self, node: Rc<Stmt>, next: usize, saved: usize, end: Option<LiteralType>)
        requires
            old(self)@.wf(),
            fits(old(self).frames@, Some(Kind::Completed)),
            saved < old(self).scope,
            ordered(old(self).frames@, saved),
        ensures
            final(self).lands(block_round(old(self)@, node, next, saved, end)),
            final(self).wf(),
    {
        match end {
            Some(value) => {
                self.leave(saved);
                self.control = Control::Completed(Some(value));
            },
            None => {
                let following = match &*node {
                    Stmt::Block(statements) => if next < statements.len() {
                        Some(share(&statements[next]))
                    } else {
                        None
                    },
                    Stmt::FunctionDecl { name, params, body } => if next < body.len() {
                        Some(share(&body[next]))
                    } else {
                        None
                    },
                    _ => None,
                };
                match following {
                    Some(statement) => {
                        self.push(Frame::Block { node, next: next + 1, saved });
                        self.control = Control::Execute(statement);
                    },
                    None => {
                        self.leave(saved);
                        self.control = Control::Completed(None);
                    },
                }
            },
        }
    }

    /// Turns the end of a function's body into the value of the call.
    pub fn finish_call(&mut self, end: Option<LiteralType>)
        requires
            old(self)@.wf(),
            fits(old(self).frames@, Some(Kind::Value)),
        ensures
            final(self).lands(returned(old(self)@, end)),
            final(self).wf(),
    {
        match end {
            Some(value) => {
                self.control = Control::Value(value);
            },
            None => {
                self.control = Control::Value(LiteralType::Nil);
            },
        }
    }

    /// Begins the next statement of the program, or finishes the run.
    pub fn round_program(&mut self, next: usize)
        requires
            old(self)@.wf(),
            old(self).frames@.len() == 0,
        ensures
            final(self).lands(program_round(old(self)@, next)),
            final(self).wf(),
    {
        if next < self.program.len() {
            let statement = share(&self.program[next]);
            proof {
                assert forall|index: int| 0 <= index < self.frames@.push(
                    Frame::Program { next: (next + 1) as usize },
                ).len() implies #[trigger] crate::interpreter::machine::linked(
                    self.frames@.push(Frame::Program { next: (next + 1) as usize }),
                    index,
                ) by {}
                assert(self.frames@.push(Frame::Program { next: (next + 1) as usize }).drop_last()
                    =~= self.frames@);
            }
            self.frames.push(Frame::Program { next: next + 1 });
            self.control = Control::Execute(statement);
        } else {
            self.control = Control::Finished;
        }
    }
}

/// Leaving a scope changes nothing in the scopes that are older than it or
/// kept by a function, and no name changes its meaning in an older scope.
pub proof fn lemma_leaving_keeps_what_is_reachable(
    m: Machine,
    saved: usize,
    from: int,
    name: Seq<char>,
)
    requires
        m.scope < m.scopes.len(),
        0 <= from < m.scopes.len(),
        from < m.scope || m.scopes[from].kept,
    ensures
        from < m.left(saved).scopes.len(),
        m.left(saved).scopes[from] == m.scopes[from],
        from < m.scope ==> crate::interpreter::environment::lookup(
            m.left(saved).scopes,
            from,
            name,
        ) == crate::interpreter::environment::lookup(m.scopes, from, name),
    decreases from,
{
    if from < m.scope && !m.scopes[from].bindings.contains_key(name) {
        match m.scopes[from].enclosing {
            Some(outer) => {
                if outer < from {
                    lemma_leaving_keeps_what_is_reachable(m, saved, outer as int, name);
                }
            },
            None => {},
        }
    }
}

} // verus!
