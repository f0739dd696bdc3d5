use crate::ast::Expr;
use crate::interpreter::environment::{bind, lookup, resolve};
use crate::interpreter::host::{ArithmeticOp, ComparisonOp, Request};
use crate::interpreter::machine::{fits, truthy, Control, Frame, Kind, Machine, Next, Outcome};
use crate::interpreter::Interpreter;
use crate::token::{Token, TokenType};
use crate::types::{share, LiteralType};
use std::rc::Rc;
use vstd::prelude::*;

verus! {

/// The first step of evaluating an expression: a literal gives its value, a
/// variable is looked up in the current scope, a group hands on to the
/// expression inside it, and every other expression turns to its first part
/// and leaves a frame that waits for it.
pub open spec fn evaluation(m: Machine, expr: Rc<Expr>) -> Outcome {
    match *expr {
        Expr::Literal(value) => m.goes(Control::Value(value)),
        Expr::Group(inner) => m.goes(Control::Evaluate(inner)),
        Expr::Variable(name) => match lookup(m.scopes, m.scope as int, name.lexeme@) {
            Some(value) => m.goes(Control::Value(value)),
            None => m.fails(name, "undefined variable"@),
        },
        Expr::Unary { operator, right } => m.pushed(Frame::Unary(expr)).goes(
            Control::Evaluate(right),
        ),
        Expr::Binary { left, operator, right } => m.pushed(Frame::BinaryLeft(expr)).goes(
            Control::Evaluate(left),
        ),
        Expr::Logical { left, operator, right } => m.pushed(Frame::LogicalLeft(expr)).goes(
            Control::Evaluate(left),
        ),
        Expr::Assign { name, value } => m.pushed(Frame::Assign(expr)).goes(
            Control::Evaluate(value),
        ),
        Expr::Call { callee, paren, args } => m.pushed(Frame::Callee(expr)).goes(
            Control::Evaluate(callee),
        ),
    }
}

/// A unary operator applied to the value of its operand: `!` gives the
/// opposite of what the operand is worth as a condition, `-` asks for the
/// negation of a number and fails on anything else.
pub open spec fn unary(m: Machine, operator: Token, operand: LiteralType) -> Outcome {
    match operator.t_type {
        TokenType::Bang => m.goes(Control::Value(LiteralType::Bool(!truthy(operand)))),
        TokenType::Minus => match operand {
            LiteralType::Number(bits) => m.goes(
                Control::Awaiting(Request::Negate { operand: bits }),
            ),
            _ => m.fails(operator, "operand must be a number"@),
        },
        _ => m.fails(operator, "unknown operator"@),
    }
}

/// The arithmetic that an operator stands for, plain or from a compound
/// assignment. Addition is not among them: `+` also joins strings.
pub open spec fn arithmetic_of(kind: TokenType) -> Option<ArithmeticOp> {
    match kind {
        TokenType::Minus => Some(ArithmeticOp::Subtract),
        TokenType::MinusEqual => Some(ArithmeticOp::Subtract),
        TokenType::Slash => Some(ArithmeticOp::Divide),
        TokenType::SlashEqual => Some(ArithmeticOp::Divide),
        TokenType::Star => Some(ArithmeticOp::Multiply),
        TokenType::StarEqual => Some(ArithmeticOp::Multiply),
        TokenType::Percent => Some(ArithmeticOp::Remainder),
        TokenType::PercentEqual => Some(ArithmeticOp::Remainder),
        _ => None,
    }
}

/// The ordering that an operator tests.
pub open spec fn comparison_of(kind: TokenType) -> Option<ComparisonOp> {
    match kind {
        TokenType::Greater => Some(ComparisonOp::Greater),
        TokenType::GreaterEqual => Some(ComparisonOp::GreaterEqual),
        TokenType::Less => Some(ComparisonOp::Less),
        TokenType::LessEqual => Some(ComparisonOp::LessEqual),
        _ => None,
    }
}

/// `==` and `!=`: two numbers are left to the host, two strings are equal
/// where their texts are, and every other pair fails.
pub open spec fn equality(
    m: Machine,
    operator: Token,
    test: ComparisonOp,
    left: LiteralType,
    right: LiteralType,
) -> Outcome {
    match (left, right) {
        (LiteralType::Number(a), LiteralType::Number(b)) => m.goes(
            Control::Awaiting(Request::Compare { operator: test, left: a, right: b }),
        ),
        (LiteralType::String(a), LiteralType::String(b)) => m.goes(
            Control::Value(LiteralType::Bool((a@ == b@) == (test == ComparisonOp::Equal))),
        ),
        _ => m.fails(operator, "cannot compare"@),
    }
}

/// `+`: two numbers are left to the host, two strings are joined, and every
/// other pair fails.
pub open spec fn addition(m: Machine, operator: Token, left: LiteralType, right: LiteralType) -> Outcome {
    match (left, right) {
        (LiteralType::Number(a), LiteralType::Number(b)) => m.goes(
            Control::Awaiting(
                Request::Arithmetic { operator: ArithmeticOp::Add, left: a, right: b },
            ),
        ),
        (LiteralType::String(a), LiteralType::String(b)) => m.leads(Next::Text(a@ + b@)),
        _ => m.fails(operator, "cannot add"@),
    }
}

/// A binary operator applied to the values of its operands. Arithmetic and
/// ordering take two numbers and fail on anything else.
pub open spec fn binary(m: Machine, operator: Token, left: LiteralType, right: LiteralType) -> Outcome {
    if arithmetic_of(operator.t_type) is Some {
        match (left, right) {
            (LiteralType::Number(a), LiteralType::Number(b)) => m.goes(
                Control::Awaiting(
                    Request::Arithmetic {
                        operator: arithmetic_of(operator.t_type)->0,
                        left: a,
                        right: b,
                    },
                ),
            ),
            _ => m.fails(operator, "operands must be a number"@),
        }
    } else if comparison_of(operator.t_type) is Some {
        match (left, right) {
            (LiteralType::Number(a), LiteralType::Number(b)) => m.goes(
                Control::Awaiting(
                    Request::Compare {
                        operator: comparison_of(operator.t_type)->0,
                        left: a,
                        right: b,
                    },
                ),
            ),
            _ => m.fails(operator, "operands must be a number"@),
        }
    } else {
        match operator.t_type {
            TokenType::EqualEqual => equality(m, operator, ComparisonOp::Equal, left, right),
            TokenType::BangEqual => equality(m, operator, ComparisonOp::NotEqual, left, right),
            TokenType::Plus => addition(m, operator, left, right),
            TokenType::PlusEqual => addition(m, operator, left, right),
            _ => m.fails(operator, "unknown operator"@),
        }
    }
}

/// `and` and `or` once the left operand has its value: where that value
/// decides, it is the result as it is; else the right operand is evaluated.
pub open spec fn logical(m: Machine, operator: Token, right: Rc<Expr>, left: LiteralType) -> Outcome {
    if (operator.t_type == TokenType::Or) == truthy(left) {
        m.goes(Control::Value(left))
    } else {
        m.goes(Control::Evaluate(right))
    }
}

/// An assignment once its value is known: the innermost scope that binds the
/// name gets the value, which is also the value of the assignment; where no
/// scope binds the name, nothing is bound and the run fails.
pub open spec fn assignment(m: Machine, name: Token, value: LiteralType) -> Outcome {
    match resolve(m.scopes, m.scope as int, name.lexeme@) {
        Some(holder) => m.over(bind(m.scopes, holder, name.lexeme@, value)).goes(
            Control::Value(value),
        ),
        None => m.fails(name, "undefined variable"@),
    }
}

impl Interpreter {
    /// Whether a value counts as true: only the boolean `true` does.
    pub fn is_truthy(object: &LiteralType) -> (result: bool)
        ensures
            result == truthy(*object),
    {
        match object {
            LiteralType::Bool(value) => *value,
            _ => false,
        }
    }

    /// Takes the first step of evaluating `expr`.
    pub fn evaluate(&mut self, expr: Rc<Expr>)
        requires
            old(self)@.wf(),
            fits(old(self).frames@, Some(Kind::Value)),
        ensures
            final(self).lands(evaluation(old(self)@, expr)),
            final(self).wf(),
    {
        match &*expr {
            Expr::Literal(value) => {
                self.control = Control::Value(value.clone());
            },
            Expr::Group(inner) => {
                self.control = Control::Evaluate(share(inner));
            },
            Expr::Variable(name) => {
                match self.environment.get(self.scope, name) {
                    Ok(value) => {
                        self.control = Control::Value(value);
                    },
                    Err(error) => {
                        self.control = Control::Failed(error);
                    },
                }
            },
            Expr::Unary { operator, right } => {
                let first = share(right);
                self.push(Frame::Unary(expr));
                self.control = Control::Evaluate(first);
            },
            Expr::Binary { left, operator, right } => {
                let first = share(left);
                self.push(Frame::BinaryLeft(expr));
                self.control = Control::Evaluate(first);
            },
            Expr::Logical { left, operator, right } => {
                let first = share(left);
                self.push(Frame::LogicalLeft(expr));
                self.control = Control::Evaluate(first);
            },
            Expr::Assign { name, value } => {
                let first = share(value);
                self.push(Frame::Assign(expr));
                self.control = Control::Evaluate(first);
            },
            Expr::Call { callee, paren, args } => {
                let first = share(callee);
                self.push(Frame::Callee(expr));
                self.control = Control::Evaluate(first);
            },
        }
    }

    /// Applies a unary operator to the value of its operand.
    pub fn apply_unary(&mut self, operator: &Token, operand: LiteralType)
        requires
            old(self)@.wf(),
            fits(old(self).frames@, Some(Kind::Value)),
        ensures
            final(self).lands(unary(old(self)@, *operator, operand)),
            final(self).wf(),
    {
        match operator.t_type {
            TokenType::Bang => {
                self.control = Control::Value(LiteralType::Bool(!Self::is_truthy(&operand)));
            },
            TokenType::Minus => {
                match Self::check_number_operand(operator, &operand) {
                    Ok(bits) => {
                        self.control = Control::Awaiting(Request::Negate { operand: bits });
                    },
                    Err(error) => {
                        self.control = Control::Failed(error);
                    },
                }
            },
            _ => {
                self.fail(operator.clone(), "unknown operator");
            },
        }
    }

    /// The bits of a number; a fault blamed on `operator` for any other
    /// value.
    pub fn check_number_operand(operator: &Token, operand: &LiteralType) -> (result: Result<
        u32,
        crate::error::RuntimeError,
    >)
        ensures
            match *operand {
                LiteralType::Number(bits) => result == Ok::<u32, crate::error::RuntimeError>(bits),
                _ => result is Err && result->Err_0.token == *operator
                    && result->Err_0.message@ == "operand must be a number"@,
            },
    {
        match operand {
            LiteralType::Number(bits) => Ok(*bits),
            _ => Err(
                crate::error::RuntimeError::new(
                    operator.clone(),
                    crate::text::owned("operand must be a number"),
                ),
            ),
        }
    }

    /// The bits of two numbers; a fault blamed on `operator` where either
    /// value is no number.
    pub fn check_number_operands(
        operator: &Token,
        left: &LiteralType,
        right: &LiteralType,
    ) -> (result: Result<(u32, u32), crate::error::RuntimeError>)
        ensures
            match (*left, *right) {
                (LiteralType::Number(a), LiteralType::Number(b)) => result == Ok::<
                    (u32, u32),
                    crate::error::RuntimeError,
                >((a, b)),
                _ => result is Err && result->Err_0.token == *operator
                    && result->Err_0.message@ == "operands must be a number"@,
            },
    {
        match (left, right) {
            (LiteralType::Number(a), LiteralType::Number(b)) => Ok((*a, *b)),
            _ => Err(
                crate::error::RuntimeError::new(
                    operator.clone(),
                    crate::text::owned("operands must be a number"),
                ),
            ),
        }
    }

    /// The arithmetic that an operator stands for, if any.
    pub fn arithmetic_for(kind: TokenType) -> (operation: Option<ArithmeticOp>)
        ensures
            operation == arithmetic_of(kind),
    {
        match kind {
            TokenType::Minus | TokenType::MinusEqual => Some(ArithmeticOp::Subtract),
            TokenType::Slash | TokenType::SlashEqual => Some(ArithmeticOp::Divide),
            TokenType::Star | TokenType::StarEqual => Some(ArithmeticOp::Multiply),
            TokenType::Percent | TokenType::PercentEqual => Some(ArithmeticOp::Remainder),
            _ => None,
        }
    }

    /// The ordering that an operator tests, if any.
    pub fn comparison_for(kind: TokenType) -> (test: Option<ComparisonOp>)
        ensures
            test == comparison_of(kind),
    {
        match kind {
            TokenType::Greater => Some(ComparisonOp::Greater),
            TokenType::GreaterEqual => Some(ComparisonOp::GreaterEqual),
            TokenType::Less => Some(ComparisonOp::Less),
            TokenType::LessEqual => Some(ComparisonOp::LessEqual),
            _ => None,
        }
    }

    /// Decides `==` or `!=` on two strings, leaves two numbers to the host,
    /// and fails on every other pair.
    pub fn is_equal(
        &mut self,
        operator: &Token,
        test: ComparisonOp,
        left: LiteralType,
        right: LiteralType,
    )
        requires
            old(self)@.wf(),
            fits(old(self).frames@, Some(Kind::Value)),
        ensures
            final(self).lands(equality(old(self)@, *operator, test, left, right)),
            final(self).wf(),
    {
        match (left, right) {
            (LiteralType::Number(a), LiteralType::Number(b)) => {
                self.control = Control::Awaiting(
                    Request::Compare { operator: test, left: a, right: b },
                );
            },
            (LiteralType::String(a), LiteralType::String(b)) => {
                let same = a == b;
                let wanted = test == ComparisonOp::Equal;
                self.control = Control::Value(LiteralType::Bool(same == wanted));
            },
            _ => {
                self.fail(operator.clone(), "cannot compare");
            },
        }
    }

    /// Joins two strings, leaves the sum of two numbers to the host, and
    /// fails on every other pair.
    pub fn add_values(&mut self, operator: &Token, left: LiteralType, right: LiteralType)
        requires
            old(self)@.wf(),
            fits(old(self).frames@, Some(Kind::Value)),
        ensures
            final(self).lands(addition(old(self)@, *operator, left, right)),
            final(self).wf(),
    {
        match (left, right) {
            (LiteralType::Number(a), LiteralType::Number(b)) => {
                self.control = Control::Awaiting(
                    Request::Arithmetic { operator: ArithmeticOp::Add, left: a, right: b },
                );
            },
            (LiteralType::String(a), LiteralType::String(b)) => {
                let mut joined = a;
                crate::text::push_text(&mut joined, b.as_str());
                self.control = Control::Value(LiteralType::String(joined));
            },
            _ => {
                self.fail(operator.clone(), "cannot add");
            },
        }
    }

    /// Applies a binary operator to the values of its operands.
    pub fn apply_binary(&mut self, operator: &Token, left: LiteralType, right: LiteralType)
        requires
            old(self)@.wf(),
            fits(old(self).frames@, Some(Kind::Value)),
        ensures
            final(self).lands(binary(old(self)@, *operator, left, right)),
            final(self).wf(),
    {
        if let Some(operation) = Self::arithmetic_for(operator.t_type) {
            match Self::check_number_operands(operator, &left, &right) {
                Ok((a, b)) => {
                    self.control = Control::Awaiting(
                        Request::Arithmetic { operator: operation, left: a, right: b },
                    );
                },
                Err(error) => {
                    self.control = Control::Failed(error);
                },
            }
        } else if let Some(test) = Self::comparison_for(operator.t_type) {
            match Self::check_number_operands(operator, &left, &right) {
                Ok((a, b)) => {
                    self.control = Control::Awaiting(
                        Request::Compare { operator: test, left: a, right: b },
                    );
                },
                Err(error) => {
                    self.control = Control::Failed(error);
                },
            }
        } else {
            match operator.t_type {
                TokenType::EqualEqual => self.is_equal(operator, ComparisonOp::Equal, left, right),
                TokenType::BangEqual => self.is_equal(
                    operator,
                    ComparisonOp::NotEqual,
                    left,
                    right,
                ),
                TokenType::Plus | TokenType::PlusEqual => self.add_values(operator, left, right),
                _ => self.fail(operator.clone(), "unknown operator"),
            }
        }
    }

    /// Goes on after the left operand of `and` or `or`.
    pub fn apply_logical(&mut self, operator: &Token, right: &Rc<Expr>, left: LiteralType)
        requires
            old(self)@.wf(),
            fits(old(self).frames@, Some(Kind::Value)),
        ensures
            final(self).lands(logical(old(self)@, *operator, *right, left)),
            final(self).wf(),
    {
        let decisive = if operator.t_type == TokenType::Or {
            Self::is_truthy(&left)
        } else {
            !Self::is_truthy(&left)
        };
        if decisive {
            self.control = Control::Value(left);
        } else {
            self.control = Control::Evaluate(share(right));
        }
    }

    /// Assigns `value` to `name` from the current scope outwards.
    pub fn apply_assign(&mut self, name: &Token, value: LiteralType)
        requires
            old(self)@.wf(),
            fits(old(self).frames@, Some(Kind::Value)),
        ensures
            final(self).lands(assignment(old(self)@, *name, value)),
            final(self).wf(),
    {
        match self.environment.assign(self.scope, name.clone(), value.clone()) {
            Ok(()) => {
                self.control = Control::Value(value);
            },
            Err(error) => {
                self.control = Control::Failed(error);
            },
        }
    }
}

/// `==` and `!=` compare two numbers or two strings and nothing else: on every
/// other pair of values, of one kind or of two, the run fails with "cannot
/// compare", blamed on the operator, and nothing else changes.
pub proof fn lemma_equality_needs_like_kinds(
    m: Machine,
    operator: Token,
    left: LiteralType,
    right: LiteralType,
)
    requires
        operator.t_type == TokenType::EqualEqual || operator.t_type == TokenType::BangEqual,
        !(left is Number && right is Number),
        !(left is String && right is String),
    ensures
        binary(m, operator, left, right) == m.fails(operator, "cannot compare"@),
{
}

/// `+` adds two numbers or joins two strings and nothing else: on every other
/// pair of values the run fails with "cannot add", blamed on the operator.
pub proof fn lemma_addition_needs_like_kinds(
    m: Machine,
    operator: Token,
    left: LiteralType,
    right: LiteralType,
)
    requires
        operator.t_type == TokenType::Plus || operator.t_type == TokenType::PlusEqual,
        !(left is Number && right is Number),
        !(left is String && right is String),
    ensures
        binary(m, operator, left, right) == m.fails(operator, "cannot add"@),
{
}

/// An assignment to a name that no scope binds, from the current scope
/// outwards, fails with "undefined variable" and binds nothing: the name is
/// as unbound afterwards as before.
pub proof fn lemma_assignment_never_declares(m: Machine, name: Token, value: LiteralType)
    requires
        lookup(m.scopes, m.scope as int, name.lexeme@) is None,
    ensures
        assignment(m, name, value) == m.fails(name, "undefined variable"@),
        lookup(assignment(m, name, value).machine.scopes, m.scope as int, name.lexeme@) is None,
{
}

/// Whether a token of this kind is an operator on two numbers.
pub open spec fn numeric_operator(kind: TokenType) -> bool {
    arithmetic_of(kind) is Some || comparison_of(kind) is Some || kind == TokenType::Plus || kind
        == TokenType::PlusEqual || kind == TokenType::EqualEqual || kind == TokenType::BangEqual
}

/// An operator on two numbers never fails, whatever the numbers are, a zero
/// divisor included: both go to the host as they are, and nothing else
/// changes. What comes of them is the host's to say.
pub proof fn lemma_numbers_go_to_the_host(m: Machine, operator: Token, left: u32, right: u32)
    requires
        numeric_operator(operator.t_type),
    ensures
        binary(m, operator, LiteralType::Number(left), LiteralType::Number(right)).machine == m,
        binary(
            m,
            operator,
            LiteralType::Number(left),
            LiteralType::Number(right),
        ).next matches Next::Exactly(Control::Awaiting(request)) && match request {
            Request::Arithmetic { operator: _, left: first, right: second } => first == left
                && second == right,
            Request::Compare { operator: _, left: first, right: second } => first == left
                && second == right,
            _ => false,
        },
{
}

} // verus!
