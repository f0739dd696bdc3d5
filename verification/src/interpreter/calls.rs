use crate::ast::{Expr, Stmt};
use crate::interpreter::environment::{
    bind, empty_scope, lemma_bind_keeps_other_names, lemma_new_scope_inherits, lookup, ScopeModel,
};
use crate::interpreter::machine::{fits, Arguments, Control, Frame, Kind, Machine, Outcome};
use crate::interpreter::stdlib::native;
use crate::interpreter::Interpreter;
use crate::token::Token;
use crate::types::{arity_mismatch, arity_message, arity_of, share, LiteralType};
use std::rc::Rc;
use vstd::prelude::*;

verus! {

/// The scopes after the first `count` parameters are bound in `scope`, each
/// to the argument at its place, one after the other.
pub open spec fn bind_parameters(
    scopes: Seq<ScopeModel>,
    scope: int,
    params: Seq<Token>,
    args: Seq<LiteralType>,
    count: nat,
) -> Seq<ScopeModel>
    decreases count,
{
    if count == 0 {
        scopes
    } else {
        bind(
            bind_parameters(scopes, scope, params, args, (count - 1) as nat),
            scope,
            params[count - 1].lexeme@,
            args[count - 1],
        )
    }
}

/// Entering the statements of `node` in `scope`: a frame remembers the scope
/// to go back to, and the first statement comes next.
pub open spec fn block_entry(m: Machine, node: Rc<Stmt>, scope: usize) -> Outcome {
    m.within(scope).pushed(Frame::Block { node, next: 0, saved: m.scope }).goes(
        Control::Completed(None),
    )
}

/// A call of a function: a new scope is made inside the scope that the
/// function was declared in, whatever scope the call is made from; the
/// parameters are bound there to the arguments; and the body is entered. A
/// function whose scope does not exist cannot be called.
pub open spec fn function_call(
    m: Machine,
    paren: Token,
    declaration: Rc<Stmt>,
    closure: usize,
    args: Seq<LiteralType>,
) -> Outcome {
    match *declaration {
        Stmt::FunctionDecl { name, params, body } => if closure < m.scopes.len() {
            block_entry(
                m.over(
                    bind_parameters(
                        m.scopes.push(empty_scope(Some(closure))),
                        m.scopes.len() as int,
                        params@,
                        args,
                        params@.len(),
                    ),
                ).pushed(Frame::Call),
                declaration,
                m.scopes.len() as usize,
            )
        } else {
            m.fails(paren, "can only call functions and classes"@)
        },
        _ => m.fails(paren, "can only call functions and classes"@),
    }
}

/// A call of a value with as many arguments as it takes.
pub open spec fn calling(m: Machine, paren: Token, callee: LiteralType, args: Seq<LiteralType>) -> Outcome {
    match callee {
        LiteralType::Function { declaration, closure } => function_call(
            m,
            paren,
            declaration,
            closure,
            args,
        ),
        LiteralType::NativeFunction { name, arity, func } => native(m, paren, func, args),
        _ => m.fails(paren, "can only call functions and classes"@),
    }
}

/// A call once the callee and all arguments have their values. A value that
/// cannot be called fails the run, and so does a number of arguments other
/// than the callee takes: then nothing is bound and no statement of the body
/// is begun.
pub open spec fn invocation(m: Machine, paren: Token, callee: LiteralType, args: Seq<LiteralType>) -> Outcome {
    match arity_of(callee) {
        None => m.fails(paren, "can only call functions and classes"@),
        Some(arity) => if args.len() == arity {
            calling(m, paren, callee, args)
        } else {
            m.fails(paren, arity_message(arity as nat, args.len()))
        },
    }
}

/// A call once its callee has its value: without arguments the call is made,
/// else the first argument is evaluated.
pub open spec fn callee_known(m: Machine, node: Rc<Expr>, callee: LiteralType) -> Outcome {
    match *node {
        Expr::Call { callee: _, paren, args } => if args@.len() == 0 {
            invocation(m, paren, callee, Seq::empty())
        } else {
            m.pushed(
                Frame::Argument { node, callee, arguments: Arguments::Empty, count: 0 },
            ).goes(Control::Evaluate(args@[0]))
        },
        _ => m.goes(Control::Finished),
    }
}

/// A call once one more argument has its value: after the last one the call
/// is made, else the next argument is evaluated.
pub open spec fn argument_known(
    m: Machine,
    node: Rc<Expr>,
    callee: LiteralType,
    arguments: Arguments,
    count: usize,
    value: LiteralType,
) -> Outcome {
    match *node {
        Expr::Call { callee: _, paren, args } => if count + 1 < args@.len() {
            m.pushed(
                Frame::Argument {
                    node,
                    callee,
                    arguments: Arguments::Then(Box::new(arguments), value),
                    count: (count + 1) as usize,
                },
            ).goes(Control::Evaluate(args@[count + 1]))
        } else {
            invocation(m, paren, callee, arguments.listed().push(value))
        },
        _ => m.goes(Control::Finished),
    }
}

impl Arguments {
    /// The values as a vector, in the order of the arguments.
    pub fn collect(self) -> (values: Vec<LiteralType>)
        ensures
            values@ == self.listed(),
        decreases self,
    {
        match self {
            Arguments::Empty => Vec::new(),
            Arguments::Then(before, last) => {
                let mut values = (*before).collect();
                values.push(last);
                values
            },
        }
    }
}

impl Interpreter {
    /// Enters the statements of `node` in `scope`, a newer scope than the
    /// current one.
    pub fn execute_block(&mut self, node: Rc<Stmt>, scope: usize)
        requires
            old(self)@.wf(),
            fits(old(self).frames@, Some(Kind::Completed)),
            old(self).scope < scope < old(self)@.scopes.len(),
        ensures
            final(self).lands(block_entry(old(self)@, node, scope)),
            final(self).wf(),
    {
        let saved = self.scope;
        self.scope = scope;
        proof {
            crate::interpreter::machine::lemma_ordered_under_newer(self.frames@, saved, scope);
        }
        self.push(Frame::Block { node, next: 0, saved });
        self.control = Control::Completed(None);
    }

    /// Begins a call of the function declared by `declaration` in the scope
    /// `closure`.
    pub fn call_function(
        &mut self,
        declaration: &Rc<Stmt>,
        closure: usize,
        paren: &Token,
        args: Vec<LiteralType>,
    )
        requires
            old(self)@.wf(),
            fits(old(self).frames@, Some(Kind::Value)),
            **declaration matches Stmt::FunctionDecl { name, params, body } ==> params@.len()
                == args@.len(),
        ensures
            final(self).lands(function_call(old(self)@, *paren, *declaration, closure, args@)),
            final(self).wf(),
    {
        match &**declaration {
            Stmt::FunctionDecl { name, params, body } => {
                if closure < self.environment.len() {
                    let scope = self.environment.with_enclosing(closure);
                    let ghost fresh = self.environment@;
                    let mut bound: usize = 0;
                    while bound < params.len()
                        invariant
                            bound <= params@.len(),
                            params@.len() == args@.len(),
                            self.environment.wf(),
                            scope < self.environment@.len(),
                            self.environment@.len() == fresh.len(),
                            self.environment@ == bind_parameters(
                                fresh,
                                scope as int,
                                params@,
                                args@,
                                bound as nat,
                            ),
                            self.scope == old(self).scope,
                            self.frames == old(self).frames,
                            self.program == old(self).program,
                        decreases params@.len() - bound,
                    {
                        self.environment.define(
                            scope,
                            params[bound].lexeme.clone(),
                            args[bound].clone(),
                        );
                        bound = bound + 1;
                    }
                    self.push(Frame::Call);
                    self.execute_block(share(declaration), scope);
                } else {
                    self.fail(paren.clone(), "can only call functions and classes");
                }
            },
            _ => {
                self.fail(paren.clone(), "can only call functions and classes");
            },
        }
    }

    /// Makes a call once the callee and all arguments have their values.
    pub fn invoke(&mut self, paren: &Token, callee: LiteralType, args: Vec<LiteralType>)
        requires
            old(self)@.wf(),
            fits(old(self).frames@, Some(Kind::Value)),
        ensures
            final(self).lands(invocation(old(self)@, *paren, callee, args@)),
            final(self).wf(),
    {
        match callee.arity(paren) {
            Ok(arity) => {
                if args.len() == arity {
                    callee.call(self, paren, args);
                } else {
                    self.control = Control::Failed(arity_mismatch(paren, arity, args.len()));
                }
            },
            Err(error) => {
                self.control = Control::Failed(error);
            },
        }
    }

    /// Goes on with a call once its callee has its value.
    pub fn apply_callee(&mut self, node: Rc<Expr>, callee: LiteralType)
        requires
            old(self)@.wf(),
            fits(old(self).frames@, Some(Kind::Value)),
            *node is Call,
        ensures
            final(self).lands(callee_known(old(self)@, node, callee)),
            final(self).wf(),
    {
        match &*node {
            Expr::Call { callee: _, paren, args } => {
                if args.len() == 0 {
                    self.invoke(paren, callee, Vec::new());
                } else {
                    let first = share(&args[0]);
                    self.push(
                        Frame::Argument { node, callee, arguments: Arguments::Empty, count: 0 },
                    );
                    self.control = Control::Evaluate(first);
                }
            },
            _ => {},
        }
    }

    /// Goes on with a call once one more argument has its value.
    pub fn apply_argument(
        &mut self,
        node: Rc<Expr>,
        callee: LiteralType,
        arguments: Arguments,
        count: usize,
        value: LiteralType,
    )
        requires
            old(self)@.wf(),
            fits(old(self).frames@, Some(Kind::Value)),
            (Frame::Argument { node, callee, arguments, count }).sound(),
        ensures
            final(self).lands(argument_known(old(self)@, node, callee, arguments, count, value)),
            final(self).wf(),
    {
        let known = Arguments::Then(Box::new(arguments), value);
        match &*node {
            Expr::Call { callee: _, paren, args } => {
                let total = args.len();
                assert(count < total);
                if count + 1 < total {
                    let following = share(&args[count + 1]);
                    self.push(
                        Frame::Argument { node, callee, arguments: known, count: count + 1 },
                    );
                    self.control = Control::Evaluate(following);
                } else {
                    self.invoke(paren, callee, known.collect());
                }
            },
            _ => {},
        }
    }
}

/// A call with another number of arguments than the callee takes fails, and
/// leaves every scope, the current scope and every frame as they were: no
/// parameter is bound and no statement of the body is begun.
pub proof fn lemma_arity_mismatch_changes_nothing(
    m: Machine,
    paren: Token,
    callee: LiteralType,
    args: Seq<LiteralType>,
)
    requires
        arity_of(callee) is Some,
        arity_of(callee)->0 != args.len(),
    ensures
        invocation(m, paren, callee, args).machine == m,
        invocation(m, paren, callee, args).next == (crate::interpreter::machine::Next::Failure {
            token: paren,
            message: arity_message(arity_of(callee)->0 as nat, args.len()),
        }),
{
}

/// Binding parameters changes the meaning of no name that is not a
/// parameter.
pub proof fn lemma_parameters_keep_other_names(
    scopes: Seq<ScopeModel>,
    scope: int,
    params: Seq<Token>,
    args: Seq<LiteralType>,
    count: nat,
    from: int,
    name: Seq<char>,
)
    requires
        0 <= scope < scopes.len(),
        count <= params.len(),
        forall|index: int| 0 <= index < count ==> (#[trigger] params[index]).lexeme@ != name,
    ensures
        bind_parameters(scopes, scope, params, args, count).len() == scopes.len(),
        lookup(bind_parameters(scopes, scope, params, args, count), from, name) == lookup(
            scopes,
            from,
            name,
        ),
    decreases count,
{
    if count > 0 {
        let before = bind_parameters(scopes, scope, params, args, (count - 1) as nat);
        lemma_parameters_keep_other_names(
            scopes,
            scope,
            params,
            args,
            (count - 1) as nat,
            from,
            name,
        );
        assert(params[count - 1].lexeme@ != name);
        lemma_bind_keeps_other_names(
            before,
            scope,
            params[count - 1].lexeme@,
            args[count - 1],
            from,
            name,
        );
    }
}

/// A function keeps its scope, not a copy of what the scope held: in the
/// body of a call, a name that is no parameter means what it means, at the
/// time of the call, in the scope that the function was declared in,
/// whatever was assigned there since the declaration and whatever scope the
/// call is made from.
pub proof fn lemma_call_reads_kept_scope(
    m: Machine,
    paren: Token,
    declaration: Rc<Stmt>,
    closure: usize,
    args: Seq<LiteralType>,
    name: Seq<char>,
)
    requires
        closure < m.scopes.len() <= usize::MAX,
        *declaration matches Stmt::FunctionDecl { name: _, params, body } && forall|index: int|
            0 <= index < params@.len() ==> (#[trigger] params@[index]).lexeme@ != name,
    ensures
        ({
            let after = function_call(m, paren, declaration, closure, args).machine;
            &&& after.scope == m.scopes.len()
            &&& after.scopes.len() == m.scopes.len() + 1
            &&& after.scopes[after.scope as int].enclosing == Some(closure)
            &&& lookup(after.scopes, after.scope as int, name) == lookup(
                m.scopes,
                closure as int,
                name,
            )
        }),
{
    match *declaration {
        Stmt::FunctionDecl { name: _, params, body } => {
            let fresh = m.scopes.push(empty_scope(Some(closure)));
            lemma_parameters_keep_other_names(
                fresh,
                m.scopes.len() as int,
                params@,
                args,
                params@.len(),
                m.scopes.len() as int,
                name,
            );
            lemma_new_scope_inherits(m.scopes, closure, name);
            lemma_parameters_keep_enclosing(
                fresh,
                m.scopes.len() as int,
                params@,
                args,
                params@.len(),
            );
        },
        _ => {},
    }
}

/// Binding parameters leaves every scope inside the scope it was in.
pub proof fn lemma_parameters_keep_enclosing(
    scopes: Seq<ScopeModel>,
    scope: int,
    params: Seq<Token>,
    args: Seq<LiteralType>,
    count: nat,
)
    requires
        0 <= scope < scopes.len(),
    ensures
        bind_parameters(scopes, scope, params, args, count).len() == scopes.len(),
        forall|index: int|
            0 <= index < scopes.len() ==> (#[trigger] bind_parameters(
                scopes,
                scope,
                params,
                args,
                count,
            )[index]).enclosing == scopes[index].enclosing,
    decreases count,
{
    if count > 0 {
        lemma_parameters_keep_enclosing(scopes, scope, params, args, (count - 1) as nat);
    }
}

} // verus!
