use crate::ast::{
    expr_models, models, plain_expr, plain_exprs, plain_stmt, plain_stmts, Expr, ExprModel, Stmt,
    StmtModel,
};
use crate::error::ParseError;
use crate::grammar;
use crate::grammar::{checks, kind_at, Parsed};
use crate::text::owned;
use crate::token::{plain_tokens, Token, TokenType};
use crate::types::LiteralType;
use std::rc::Rc;
use vstd::prelude::*;

verus! {

/// A recursive-descent parser over a sequence of tokens that ends with the
/// end-of-input token.
pub struct Parser {
    pub tokens: Vec<Token>,
    pub current: usize,
}

/// Whether `result` is what the grammar gives: the tree, or the violation. A
/// tree is plain: the literals in it are those of the tokens.
pub open spec fn expr_agrees(result: Result<Expr, ParseError>, expected: Parsed<ExprModel>) -> bool {
    match expected {
        Parsed::Done { value, used } => result is Ok && result->Ok_0.model() == value
            && plain_expr(result->Ok_0),
        Parsed::Fault { token, message } => result is Err && result->Err_0.token == token
            && result->Err_0.message@ == message,
    }
}

/// Whether `result` is what the grammar gives: the tree, or the violation.
pub open spec fn stmt_agrees(result: Result<Stmt, ParseError>, expected: Parsed<StmtModel>) -> bool {
    match expected {
        Parsed::Done { value, used } => result is Ok && result->Ok_0.model() == value
            && plain_stmt(result->Ok_0),
        Parsed::Fault { token, message } => result is Err && result->Err_0.token == token
            && result->Err_0.message@ == message,
    }
}

/// Whether `result` is what the grammar gives: the trees, or the violation.
pub open spec fn stmts_agree(
    result: Result<Vec<Rc<Stmt>>, ParseError>,
    expected: Parsed<Seq<StmtModel>>,
) -> bool {
    match expected {
        Parsed::Done { value, used } => result is Ok && models(result->Ok_0@) == value
            && plain_stmts(result->Ok_0@),
        Parsed::Fault { token, message } => result is Err && result->Err_0.token == token
            && result->Err_0.message@ == message,
    }
}

/// Whether `result` is what the grammar gives: the tree if there is one, or
/// the violation.
pub open spec fn option_agrees(
    result: Result<Option<Rc<Expr>>, ParseError>,
    expected: Parsed<Option<ExprModel>>,
) -> bool {
    match expected {
        Parsed::Done { value, used } => result is Ok && match value {
            Some(model) => result->Ok_0 is Some && result->Ok_0->0.model() == model
                && plain_expr(*result->Ok_0->0),
            None => result->Ok_0 is None,
        },
        Parsed::Fault { token, message } => result is Err && result->Err_0.token == token
            && result->Err_0.message@ == message,
    }
}

/// Whether `result` is what the grammar gives: the tree if there is one, or
/// the violation.
pub open spec fn initializer_agrees(
    result: Result<Option<Stmt>, ParseError>,
    expected: Parsed<Option<StmtModel>>,
) -> bool {
    match expected {
        Parsed::Done { value, used } => result is Ok && match value {
            Some(model) => result->Ok_0 is Some && result->Ok_0->0.model() == model
                && plain_stmt(result->Ok_0->0),
            None => result->Ok_0 is None,
        },
        Parsed::Fault { token, message } => result is Err && result->Err_0.token == token
            && result->Err_0.message@ == message,
    }
}

/// Whether `result` is what the grammar gives: the names, or the violation.
pub open spec fn names_agree(result: Result<Vec<Token>, ParseError>, expected: Parsed<Seq<Token>>) -> bool {
    match expected {
        Parsed::Done { value, used } => result is Ok && result->Ok_0@ == value,
        Parsed::Fault { token, message } => result is Err && result->Err_0.token == token
            && result->Err_0.message@ == message,
    }
}

/// Whether `result` is what the grammar gives: the token, or the violation.
pub open spec fn token_agrees(result: Result<Token, ParseError>, expected: Parsed<Token>) -> bool {
    match expected {
        Parsed::Done { value, used } => result == Ok::<Token, ParseError>(value),
        Parsed::Fault { token, message } => result is Err && result->Err_0.token == token
            && result->Err_0.message@ == message,
    }
}

impl Parser {
    /// There are tokens, none carries a function, the last one is the end of
    /// input, and the place of the parser is among them.
    pub open spec fn wf(&self) -> bool {
        &&& self.tokens.len() > 0
        &&& plain_tokens(self.tokens@)
        &&& self.tokens@.last().t_type == TokenType::EOF
        &&& self.current < self.tokens.len()
    }

    /// The parser reads the same tokens as `before` and has gone on by as
    /// many tokens as `expected` says, if that is a tree.
    pub open spec fn went<T>(&self, before: Parser, expected: Parsed<T>) -> bool {
        &&& self.wf()
        &&& self.tokens == before.tokens
        &&& expected matches Parsed::Done { value, used } ==> self.current == before.current
            + used
    }

    /// A parser at the first of `tokens`.
    pub fn new(tokens: Vec<Token>) -> (parser: Parser)
        requires
            tokens@.len() > 0,
            plain_tokens(tokens@),
            tokens@.last().t_type == TokenType::EOF,
        ensures
            parser.wf(),
            parser.tokens == tokens,
            parser.current == 0,
    {
        Parser { tokens, current: 0 }
    }

    /// The token at the parser's place.
    fn peak(&self) -> (token: &Token)
        requires
            self.wf(),
        ensures
            *token == self.tokens@[self.current as int],
    {
        &self.tokens[self.current]
    }

    /// The kind of the token at the parser's place.
    fn kind(&self) -> (kind: TokenType)
        requires
            self.wf(),
        ensures
            kind == kind_at(self.tokens@, self.current as int),
    {
        self.tokens[self.current].t_type
    }

    /// Whether the parser stands at the end of input.
    fn is_at_end(&self) -> (ended: bool)
        requires
            self.wf(),
        ensures
            ended == (kind_at(self.tokens@, self.current as int) == TokenType::EOF),
    {
        self.kind() == TokenType::EOF
    }

    /// Whether the token at the parser's place is of this kind.
    fn check(&self, token_type: TokenType) -> (found: bool)
        requires
            self.wf(),
        ensures
            found == checks(self.tokens@, self.current as int, token_type),
    {
        if self.is_at_end() {
            return false;
        }
        self.kind() == token_type
    }

    /// Goes past the token at the parser's place, which is not the end of
    /// input, and gives it.
    fn advance(&mut self) -> (token: Token)
        requires
            old(self).wf(),
            kind_at(old(self).tokens@, old(self).current as int) != TokenType::EOF,
        ensures
            final(self).wf(),
            final(self).tokens == old(self).tokens,
            final(self).current == old(self).current + 1,
            token == old(self).tokens@[old(self).current as int],
    {
        let token = self.tokens[self.current].clone();
        self.current = self.current + 1;
        token
    }

    /// Goes past the token at the parser's place if it is of this kind.
    fn match_token(&mut self, token_type: TokenType) -> (found: bool)
        requires
            old(self).wf(),
        ensures
            final(self).wf(),
            final(self).tokens == old(self).tokens,
            found == checks(old(self).tokens@, old(self).current as int, token_type),
            final(self).current == old(self).current + grammar::optional(
                old(self).tokens@,
                old(self).current as int,
                token_type,
            ),
    {
        if self.check(token_type) {
            self.current = self.current + 1;
            true
        } else {
            false
        }
    }

    /// Goes past a token of this kind and gives it, or gives the violation
    /// `message` at the token that is there.
    fn consume(&mut self, token_type: TokenType, message: &str) -> (result: Result<
        Token,
        ParseError,
    >)
        requires
            old(self).wf(),
        ensures
            final(self).went(
                *old(self),
                grammar::consumed(old(self).tokens@, old(self).current as int, token_type, message@),
            ),
            token_agrees(
                result,
                grammar::consumed(old(self).tokens@, old(self).current as int, token_type, message@),
            ),
    {
        if self.check(token_type) {
            return Ok(self.advance());
        }
        Err(ParseError::new(self.peak().clone(), owned(message)))
    }

    /// Goes past the token at the parser's place if it is of this kind.
    fn consume_optional(&mut self, token_type: TokenType)
        requires
            old(self).wf(),
        ensures
            final(self).wf(),
            final(self).tokens == old(self).tokens,
            final(self).current == old(self).current + grammar::optional(
                old(self).tokens@,
                old(self).current as int,
                token_type,
            ),
    {
        if self.check(token_type) {
            self.current = self.current + 1;
        }
    }

    /// Parses a literal, a name, or an expression in parentheses.
    #[verifier::spinoff_prover]
    fn primary(&mut self) -> (result: Result<Expr, ParseError>)
        requires
            old(self).wf(),
        ensures
            final(self).went(*old(self), grammar::primary(old(self).tokens@, old(self).current as int)),
            expr_agrees(result, grammar::primary(old(self).tokens@, old(self).current as int)),
            result is Ok ==> final(self).current > old(self).current,
        decreases old(self).tokens@.len() - old(self).current, 0nat, 0nat,
    {
        reveal(grammar::primary);
        reveal(grammar::expression);
        match self.kind() {
            TokenType::False => {
                self.current = self.current + 1;
                Ok(Expr::Literal(LiteralType::Bool(false)))
            },
            TokenType::True => {
                self.current = self.current + 1;
                Ok(Expr::Literal(LiteralType::Bool(true)))
            },
            TokenType::Nil => {
                self.current = self.current + 1;
                Ok(Expr::Literal(LiteralType::Nil))
            },
            TokenType::Number | TokenType::String => {
                let value = self.peak().literal.clone();
                self.current = self.current + 1;
                Ok(Expr::Literal(value))
            },
            TokenType::Identifier => {
                let name = self.advance();
                Ok(Expr::Variable(name))
            },
            TokenType::LeftParen => {
                self.current = self.current + 1;
                match self.expression() {
                    Ok(expr) => match self.consume(
                        TokenType::RightParen,
                        "expected ')' after expression",
                    ) {
                        Ok(_) => Ok(Expr::Group(Rc::new(expr))),
                        Err(error) => Err(error),
                    },
                    Err(error) => Err(error),
                }
            },
            _ => Err(ParseError::new(self.peak().clone(), owned("expect expression"))),
        }
    }

    /// Parses the arguments of a call of `callee` and its closing
    /// parenthesis.
    #[verifier::spinoff_prover]
    #[verifier::loop_isolation(false)]
    fn finish_call(&mut self, callee: Expr) -> (result: Result<Expr, ParseError>)
        requires
            old(self).wf(),
            plain_expr(callee),
        ensures
            final(self).went(
                *old(self),
                grammar::finish_call(old(self).tokens@, old(self).current as int, callee.model()),
            ),
            expr_agrees(
                result,
                grammar::finish_call(old(self).tokens@, old(self).current as int, callee.model()),
            ),
            result is Ok ==> final(self).current > old(self).current,
        decreases old(self).tokens@.len() - old(self).current, 17nat, 0nat,
    {
        reveal(grammar::finish_call);
        reveal(grammar::arguments);
        reveal(grammar::expression);
        let ghost ts = self.tokens@;
        let ghost start = self.current as int;
        let ghost goal = grammar::arguments(ts, start, Seq::empty());
        let mut args: Vec<Rc<Expr>> = Vec::new();
        assert(expr_models(args@) =~= Seq::empty());
        let mut more = !self.check(TokenType::RightParen);
        let ghost listing = more;
        while more
            invariant
                self.wf(),
                self.tokens == old(self).tokens,
                start <= self.current,
                more ==> goal == grammar::arguments(
                    ts,
                    self.current as int,
                    expr_models(args@),
                ).after((self.current - start) as nat),
                !more && listing ==> goal == (Parsed::Done {
                    value: expr_models(args@),
                    used: (self.current - start) as nat,
                }),
                !listing ==> self.current == start && args@.len() == 0 && !more,
                listing == !checks(ts, start, TokenType::RightParen),
                plain_exprs(args@),
            decreases self.tokens@.len() - self.current, (if more { 1nat } else { 0nat }),
        {
            let ghost before = expr_models(args@);
            let ghost here = self.current as int;
            match self.expression() {
                Ok(expr) => {
                    args.push(Rc::new(expr));
                    assert(expr_models(args@) =~= before.push(expr.model()));
                },
                Err(error) => {
                    return Err(error);
                },
            }
            let ghost used = (self.current - here) as nat;
            more = self.match_token(TokenType::Comma);
            proof {
                if more {
                    let rest = grammar::arguments(ts, here + used + 1, expr_models(args@));
                    assert(grammar::arguments(ts, here, before) == rest.after(used + 1));
                    assert(rest.after(used + 1).after((here - start) as nat) == rest.after(
                        (self.current - start) as nat,
                    ));
                } else {
                    assert(grammar::arguments(ts, here, before) == (Parsed::Done {
                        value: expr_models(args@),
                        used,
                    }));
                }
            }
        }
        assert(!listing ==> expr_models(args@) =~= Seq::empty());
        match self.consume(TokenType::RightParen, "expect ')' after arguments") {
            Ok(paren) => {
                let call = Expr::Call { callee: Rc::new(callee), paren, args };
                assert(call.model() == ExprModel::Call {
                    callee: Box::new(callee.model()),
                    paren,
                    args: expr_models(args@),
                });
                Ok(call)
            },
            Err(error) => Err(error),
        }
    }

    /// Parses a primary expression and the calls that follow it.
    #[verifier::spinoff_prover]
    #[verifier::loop_isolation(false)]
    fn call(&mut self) -> (result: Result<Expr, ParseError>)
        requires
            old(self).wf(),
        ensures
            final(self).went(*old(self), grammar::call(old(self).tokens@, old(self).current as int)),
            expr_agrees(result, grammar::call(old(self).tokens@, old(self).current as int)),
            result is Ok ==> final(self).current > old(self).current,
        decreases old(self).tokens@.len() - old(self).current, 2nat, 0nat,
    {
        reveal(grammar::call);
        reveal(grammar::call_rest);
        reveal(grammar::primary);
        reveal(grammar::finish_call);
        let ghost ts = self.tokens@;
        let ghost start = self.current as int;
        let mut expr = match self.primary() {
            Ok(expr) => expr,
            Err(error) => {
                return Err(error);
            },
        };
        let ghost first = self.current as int;
        let ghost goal = grammar::call_rest(ts, first, expr.model());
        let mut more = true;
        while more
            invariant
                self.wf(),
                self.tokens == old(self).tokens,
                start < first <= self.current,
                plain_expr(expr),
                more ==> goal == grammar::call_rest(ts, self.current as int, expr.model()).after(
                    (self.current - first) as nat,
                ),
                !more ==> goal == (Parsed::Done {
                    value: expr.model(),
                    used: (self.current - first) as nat,
                }),
            decreases self.tokens@.len() - self.current, (if more { 1nat } else { 0nat }),
        {
            if self.match_token(TokenType::LeftParen) {
                match self.finish_call(expr) {
                    Ok(called) => {
                        expr = called;
                    },
                    Err(error) => {
                        return Err(error);
                    },
                }
            } else {
                more = false;
            }
        }
        Ok(expr)
    }

    /// Parses any number of `!` and `-` before a call.
    #[verifier::spinoff_prover]
    fn unary(&mut self) -> (result: Result<Expr, ParseError>)
        requires
            old(self).wf(),
        ensures
            final(self).went(*old(self), grammar::unary(old(self).tokens@, old(self).current as int)),
            expr_agrees(result, grammar::unary(old(self).tokens@, old(self).current as int)),
            result is Ok ==> final(self).current > old(self).current,
        decreases old(self).tokens@.len() - old(self).current, 3nat, 0nat,
    {
        reveal(grammar::unary);
        reveal(grammar::call);
        if self.check(TokenType::Bang) || self.check(TokenType::Minus) {
            let operator = self.advance();
            match self.unary() {
                Ok(right) => Ok(Expr::Unary { operator, right: Rc::new(right) }),
                Err(error) => Err(error),
            }
        } else {
            self.call()
        }
    }

    /// Whether a token of this kind is a binary operator of this level.
    fn is_operator(level: u8, kind: TokenType) -> (found: bool)
        ensures
            found == grammar::operator_of(level as nat, kind),
    {
        if level == 0 {
            kind == TokenType::Slash || kind == TokenType::Star || kind == TokenType::Percent
        } else if level == 1 {
            kind == TokenType::Minus || kind == TokenType::Plus
        } else if level == 2 {
            kind == TokenType::Greater || kind == TokenType::GreaterEqual || kind
                == TokenType::Less || kind == TokenType::LessEqual
        } else {
            kind == TokenType::BangEqual || kind == TokenType::EqualEqual
        }
    }

    /// Parses an operand of a binary operator of this level.
    #[verifier::spinoff_prover]
    fn operand(&mut self, level: u8) -> (result: Result<Expr, ParseError>)
        requires
            old(self).wf(),
            level <= 3,
        ensures
            final(self).went(
                *old(self),
                grammar::operand(old(self).tokens@, old(self).current as int, level as nat),
            ),
            expr_agrees(
                result,
                grammar::operand(old(self).tokens@, old(self).current as int, level as nat),
            ),
            result is Ok ==> final(self).current > old(self).current,
        decreases old(self).tokens@.len() - old(self).current, 4 + 2 * level, 0nat,
    {
        reveal(grammar::operand);
        reveal(grammar::unary);
        reveal(grammar::binary);
        if level == 0 {
            self.unary()
        } else {
            self.binary(level - 1)
        }
    }

    /// A chain of binary operators of one level, grouped from the left.
    #[verifier::spinoff_prover]
    #[verifier::loop_isolation(false)]
    fn binary(&mut self, level: u8) -> (result: Result<Expr, ParseError>)
        requires
            old(self).wf(),
            level <= 3,
        ensures
            final(self).went(
                *old(self),
                grammar::binary(old(self).tokens@, old(self).current as int, level as nat),
            ),
            expr_agrees(
                result,
                grammar::binary(old(self).tokens@, old(self).current as int, level as nat),
            ),
            result is Ok ==> final(self).current > old(self).current,
        decreases old(self).tokens@.len() - old(self).current, 4 + 2 * level, 2nat,
    {
        reveal(grammar::binary);
        reveal(grammar::binary_rest);
        reveal(grammar::operand);
        let ghost ts = self.tokens@;
        let ghost start = self.current as int;
        let mut expr = match self.operand(level) {
            Ok(expr) => expr,
            Err(error) => {
                return Err(error);
            },
        };
        let ghost first = self.current as int;
        let ghost goal = grammar::binary_rest(ts, first, level as nat, expr.model());
        let mut more = true;
        while more
            invariant
                self.wf(),
                self.tokens == old(self).tokens,
                start < first <= self.current,
                plain_expr(expr),
                more ==> goal == grammar::binary_rest(
                    ts,
                    self.current as int,
                    level as nat,
                    expr.model(),
                ).after((self.current - first) as nat),
                !more ==> goal == (Parsed::Done {
                    value: expr.model(),
                    used: (self.current - first) as nat,
                }),
            decreases self.tokens@.len() - self.current, (if more {
                1nat
            } else {
                0nat
            }),
        {
            if Self::is_operator(level, self.kind()) {
                let ghost here = self.current as int;
                let ghost left = expr.model();
                let operator = self.advance();
                match self.operand(level) {
                    Ok(right) => {
                        expr = Expr::Binary { left: Rc::new(expr), operator, right: Rc::new(right) };
                        proof {
                            let used = (self.current - here - 1) as nat;
                            let rest = grammar::binary_rest(
                                ts,
                                self.current as int,
                                level as nat,
                                expr.model(),
                            );
                            assert(grammar::binary_rest(ts, here, level as nat, left)
                                == rest.after(used + 1));
                            assert(rest.after(used + 1).after((here - first) as nat) == rest.after(
                                (self.current - first) as nat,
                            ));
                        }
                    },
                    Err(error) => {
                        return Err(error);
                    },
                }
            } else {
                more = false;
            }
        }
        Ok(expr)
    }

    /// Parses a chain of `/`, `*` and `%`.
    #[verifier::spinoff_prover]
    fn factor(&mut self) -> (result: Result<Expr, ParseError>)
        requires
            old(self).wf(),
        ensures
            final(self).went(
                *old(self),
                grammar::binary(old(self).tokens@, old(self).current as int, 0),
            ),
            expr_agrees(result, grammar::binary(old(self).tokens@, old(self).current as int, 0)),
            result is Ok ==> final(self).current > old(self).current,
        decreases old(self).tokens@.len() - old(self).current, 5nat, 0nat,
    {
        self.binary(0)
    }

    /// Parses a chain of `-` and `+`.
    #[verifier::spinoff_prover]
    fn term(&mut self) -> (result: Result<Expr, ParseError>)
        requires
            old(self).wf(),
        ensures
            final(self).went(
                *old(self),
                grammar::binary(old(self).tokens@, old(self).current as int, 1),
            ),
            expr_agrees(result, grammar::binary(old(self).tokens@, old(self).current as int, 1)),
            result is Ok ==> final(self).current > old(self).current,
        decreases old(self).tokens@.len() - old(self).current, 7nat, 0nat,
    {
        self.binary(1)
    }

    /// Parses a chain of `>`, `>=`, `<` and `<=`.
    #[verifier::spinoff_prover]
    fn comparison(&mut self) -> (result: Result<Expr, ParseError>)
        requires
            old(self).wf(),
        ensures
            final(self).went(
                *old(self),
                grammar::binary(old(self).tokens@, old(self).current as int, 2),
            ),
            expr_agrees(result, grammar::binary(old(self).tokens@, old(self).current as int, 2)),
            result is Ok ==> final(self).current > old(self).current,
        decreases old(self).tokens@.len() - old(self).current, 9nat, 0nat,
    {
        self.binary(2)
    }

    /// Parses a chain of `!=` and `==`.
    #[verifier::spinoff_prover]
    fn equality(&mut self) -> (result: Result<Expr, ParseError>)
        requires
            old(self).wf(),
        ensures
            final(self).went(
                *old(self),
                grammar::binary(old(self).tokens@, old(self).current as int, 3),
            ),
            expr_agrees(result, grammar::binary(old(self).tokens@, old(self).current as int, 3)),
            result is Ok ==> final(self).current > old(self).current,
        decreases old(self).tokens@.len() - old(self).current, 11nat, 0nat,
    {
        self.binary(3)
    }

    /// Parses equalities joined by `and`.
    #[verifier::spinoff_prover]
    fn and(&mut self) -> (result: Result<Expr, ParseError>)
        requires
            old(self).wf(),
        ensures
            final(self).went(*old(self), grammar::and(old(self).tokens@, old(self).current as int)),
            expr_agrees(result, grammar::and(old(self).tokens@, old(self).current as int)),
            result is Ok ==> final(self).current > old(self).current,
        decreases old(self).tokens@.len() - old(self).current, 12nat, 0nat,
    {
        reveal(grammar::and);
        reveal(grammar::binary);
        let expr = match self.equality() {
            Ok(expr) => expr,
            Err(error) => {
                return Err(error);
            },
        };
        if self.check(TokenType::And) {
            let operator = self.advance();
            match self.and() {
                Ok(right) => Ok(
                    Expr::Logical { left: Rc::new(expr), operator, right: Rc::new(right) },
                ),
                Err(error) => Err(error),
            }
        } else {
            Ok(expr)
        }
    }

    /// Parses `and` expressions joined by `or`.
    #[verifier::spinoff_prover]
    fn or(&mut self) -> (result: Result<Expr, ParseError>)
        requires
            old(self).wf(),
        ensures
            final(self).went(*old(self), grammar::or(old(self).tokens@, old(self).current as int)),
            expr_agrees(result, grammar::or(old(self).tokens@, old(self).current as int)),
            result is Ok ==> final(self).current > old(self).current,
        decreases old(self).tokens@.len() - old(self).current, 13nat, 0nat,
    {
        reveal(grammar::or);
        reveal(grammar::and);
        let expr = match self.and() {
            Ok(expr) => expr,
            Err(error) => {
                return Err(error);
            },
        };
        if self.check(TokenType::Or) {
            let operator = self.advance();
            match self.or() {
                Ok(right) => Ok(
                    Expr::Logical { left: Rc::new(expr), operator, right: Rc::new(right) },
                ),
                Err(error) => Err(error),
            }
        } else {
            Ok(expr)
        }
    }

    /// Whether a token of this kind is a compound assignment operator.
    fn is_compound(kind: TokenType) -> (found: bool)
        ensures
            found == grammar::compound(kind),
    {
        kind == TokenType::PlusEqual || kind == TokenType::MinusEqual || kind
            == TokenType::StarEqual || kind == TokenType::SlashEqual || kind
            == TokenType::PercentEqual
    }

    /// Parses an assignment, plain or compound, or what stands in its place.
    #[verifier::spinoff_prover]
    fn assignment(&mut self) -> (result: Result<Expr, ParseError>)
        requires
            old(self).wf(),
        ensures
            final(self).went(
                *old(self),
                grammar::assignment(old(self).tokens@, old(self).current as int),
            ),
            expr_agrees(result, grammar::assignment(old(self).tokens@, old(self).current as int)),
            result is Ok ==> final(self).current > old(self).current,
        decreases old(self).tokens@.len() - old(self).current, 14nat, 0nat,
    {
        reveal(grammar::assignment);
        reveal(grammar::or);
        let expr = match self.or() {
            Ok(expr) => expr,
            Err(error) => {
                return Err(error);
            },
        };
        let kind = self.kind();
        if kind == TokenType::Equal || Self::is_compound(kind) {
            let operator = self.advance();
            match expr {
                Expr::Variable(name) => match self.assignment() {
                    Ok(value) => if kind == TokenType::Equal {
                        Ok(Expr::Assign { name, value: Rc::new(value) })
                    } else {
                        let target = name.clone();
                        let ghost right = value.model();
                        let variable = Expr::Variable(name);
                        assert(variable.model() == ExprModel::Variable(name));
                        let combined = Expr::Binary {
                            left: Rc::new(variable),
                            operator,
                            right: Rc::new(value),
                        };
                        assert(combined.model() == ExprModel::Binary {
                            left: Box::new(ExprModel::Variable(name)),
                            operator,
                            right: Box::new(right),
                        });
                        assert(plain_expr(variable));
                        assert(plain_expr(combined));
                        Ok(Expr::Assign { name: target, value: Rc::new(combined) })
                    },
                    Err(error) => Err(error),
                },
                _ => {
                    assert(!(expr.model() is Variable));
                    Err(ParseError::new(self.peak().clone(), owned("invalid assignment target")))
                },
            }
        } else {
            Ok(expr)
        }
    }

    /// Parses an expression.
    #[verifier::spinoff_prover]
    fn expression(&mut self) -> (result: Result<Expr, ParseError>)
        requires
            old(self).wf(),
        ensures
            final(self).went(
                *old(self),
                grammar::expression(old(self).tokens@, old(self).current as int),
            ),
            expr_agrees(result, grammar::expression(old(self).tokens@, old(self).current as int)),
            result is Ok ==> final(self).current > old(self).current,
        decreases old(self).tokens@.len() - old(self).current, 15nat, 0nat,
    {
        reveal(grammar::expression);
        reveal(grammar::assignment);
        self.assignment()
    }

    /// Parses an expression where `present` says there is one.
    #[verifier::spinoff_prover]
    fn optional_expression(&mut self, present: bool) -> (result: Result<
        Option<Rc<Expr>>,
        ParseError,
    >)
        requires
            old(self).wf(),
        ensures
            final(self).went(
                *old(self),
                grammar::optional_expression(old(self).tokens@, old(self).current as int, present),
            ),
            option_agrees(
                result,
                grammar::optional_expression(old(self).tokens@, old(self).current as int, present),
            ),
        decreases old(self).tokens@.len() - old(self).current, 16nat, 0nat,
    {
        reveal(grammar::expression);
        if present {
            match self.expression() {
                Ok(expr) => Ok(Some(Rc::new(expr))),
                Err(error) => Err(error),
            }
        } else {
            Ok(None)
        }
    }

    /// Parses an expression and `;`.
    #[verifier::spinoff_prover]
    fn expression_statement(&mut self) -> (result: Result<Stmt, ParseError>)
        requires
            old(self).wf(),
        ensures
            final(self).went(
                *old(self),
                grammar::expression_statement(old(self).tokens@, old(self).current as int),
            ),
            stmt_agrees(
                result,
                grammar::expression_statement(old(self).tokens@, old(self).current as int),
            ),
            result is Ok ==> final(self).current > old(self).current,
        decreases old(self).tokens@.len() - old(self).current, 20nat, 0nat,
    {
        reveal(grammar::expression_statement);
        reveal(grammar::expression);
        let expr = match self.expression() {
            Ok(expr) => expr,
            Err(error) => {
                return Err(error);
            },
        };
        match self.consume(TokenType::Semicolon, "expect ';' after expression") {
            Ok(_) => Ok(Stmt::Expression(Rc::new(expr))),
            Err(error) => Err(error),
        }
    }

    /// Parses the rest of a variable declaration after `var`.
    #[verifier::spinoff_prover]
    fn var_declaration(&mut self) -> (result: Result<Stmt, ParseError>)
        requires
            old(self).wf(),
        ensures
            final(self).went(
                *old(self),
                grammar::var_declaration(old(self).tokens@, old(self).current as int),
            ),
            stmt_agrees(
                result,
                grammar::var_declaration(old(self).tokens@, old(self).current as int),
            ),
            result is Ok ==> final(self).current > old(self).current,
        decreases old(self).tokens@.len() - old(self).current, 21nat, 0nat,
    {
        reveal(grammar::var_declaration);
        let name = match self.consume(TokenType::Identifier, "expect variable name") {
            Ok(name) => name,
            Err(error) => {
                return Err(error);
            },
        };
        let present = self.match_token(TokenType::Equal);
        let initializer = match self.optional_expression(present) {
            Ok(initializer) => initializer,
            Err(error) => {
                return Err(error);
            },
        };
        match self.consume(TokenType::Semicolon, "expect ';' after variable declaration") {
            Ok(_) => Ok(Stmt::VarDecl { name, initializer }),
            Err(error) => Err(error),
        }
    }

    /// Parses the statements of a block up to its closing brace.
    #[verifier::spinoff_prover]
    #[verifier::loop_isolation(false)]
    fn block(&mut self) -> (result: Result<Vec<Rc<Stmt>>, ParseError>)
        requires
            old(self).wf(),
        ensures
            final(self).went(
                *old(self),
                grammar::block_rest(old(self).tokens@, old(self).current as int, Seq::empty()),
            ),
            stmts_agree(
                result,
                grammar::block_rest(old(self).tokens@, old(self).current as int, Seq::empty()),
            ),
            result is Ok ==> final(self).current > old(self).current,
        decreases old(self).tokens@.len() - old(self).current, 24nat, 0nat,
    {
        reveal(grammar::block_rest);
        reveal(grammar::declaration);
        let ghost ts = self.tokens@;
        let ghost start = self.current as int;
        let ghost goal = grammar::block_rest(ts, start, Seq::empty());
        let mut statements: Vec<Rc<Stmt>> = Vec::new();
        assert(models(statements@) =~= Seq::empty());
        while !self.check(TokenType::RightBrace) && !self.is_at_end()
            invariant
                self.wf(),
                self.tokens == old(self).tokens,
                start <= self.current,
                plain_stmts(statements@),
                goal == grammar::block_rest(ts, self.current as int, models(statements@)).after(
                    (self.current - start) as nat,
                ),
            decreases self.tokens@.len() - self.current,
        {
            let ghost before = models(statements@);
            let ghost here = self.current as int;
            match self.declaration() {
                Ok(statement) => {
                    statements.push(Rc::new(statement));
                    assert(models(statements@) =~= before.push(statement.model()));
                },
                Err(error) => {
                    return Err(error);
                },
            }
            proof {
                let used = (self.current - here) as nat;
                let rest = grammar::block_rest(ts, self.current as int, models(statements@));
                assert(grammar::block_rest(ts, here, before) == rest.after(used));
                assert(rest.after(used).after((here - start) as nat) == rest.after(
                    (self.current - start) as nat,
                ));
            }
        }
        match self.consume(TokenType::RightBrace, "expect '}' after block") {
            Ok(_) => Ok(statements),
            Err(error) => Err(error),
        }
    }

    /// Parses the rest of an `if` after the keyword.
    #[verifier::spinoff_prover]
    fn if_statement(&mut self) -> (result: Result<Stmt, ParseError>)
        requires
            old(self).wf(),
        ensures
            final(self).went(
                *old(self),
                grammar::if_statement(old(self).tokens@, old(self).current as int),
            ),
            stmt_agrees(result, grammar::if_statement(old(self).tokens@, old(self).current as int)),
        decreases old(self).tokens@.len() - old(self).current, 25nat, 0nat,
    {
        reveal(grammar::if_statement);
        reveal(grammar::expression);
        reveal(grammar::statement);
        self.consume_optional(TokenType::LeftParen);
        let condition = match self.expression() {
            Ok(condition) => condition,
            Err(error) => {
                return Err(error);
            },
        };
        self.consume_optional(TokenType::RightParen);
        let then_branch = match self.statement() {
            Ok(statement) => statement,
            Err(error) => {
                return Err(error);
            },
        };
        if self.match_token(TokenType::Else) {
            match self.statement() {
                Ok(statement) => Ok(
                    Stmt::If {
                        condition: Rc::new(condition),
                        then_branch: Rc::new(then_branch),
                        else_branch: Some(Rc::new(statement)),
                    },
                ),
                Err(error) => Err(error),
            }
        } else {
            Ok(
                Stmt::If {
                    condition: Rc::new(condition),
                    then_branch: Rc::new(then_branch),
                    else_branch: None,
                },
            )
        }
    }

    /// Parses the rest of a `while` after the keyword.
    #[verifier::spinoff_prover]
    fn while_statement(&mut self) -> (result: Result<Stmt, ParseError>)
        requires
            old(self).wf(),
        ensures
            final(self).went(
                *old(self),
                grammar::while_statement(old(self).tokens@, old(self).current as int),
            ),
            stmt_agrees(
                result,
                grammar::while_statement(old(self).tokens@, old(self).current as int),
            ),
        decreases old(self).tokens@.len() - old(self).current, 25nat, 0nat,
    {
        reveal(grammar::while_statement);
        reveal(grammar::expression);
        reveal(grammar::statement);
        self.consume_optional(TokenType::LeftParen);
        let condition = match self.expression() {
            Ok(condition) => condition,
            Err(error) => {
                return Err(error);
            },
        };
        self.consume_optional(TokenType::RightParen);
        match self.statement() {
            Ok(body) => Ok(
                Stmt::While { condition: Some(Rc::new(condition)), body: Rc::new(body) },
            ),
            Err(error) => Err(error),
        }
    }

    /// Parses the rest of a `return` after the keyword.
    #[verifier::spinoff_prover]
    fn return_statement(&mut self, keyword: Token) -> (result: Result<Stmt, ParseError>)
        requires
            old(self).wf(),
        ensures
            final(self).went(
                *old(self),
                grammar::return_statement(old(self).tokens@, old(self).current as int, keyword),
            ),
            stmt_agrees(
                result,
                grammar::return_statement(old(self).tokens@, old(self).current as int, keyword),
            ),
        decreases old(self).tokens@.len() - old(self).current, 25nat, 0nat,
    {
        reveal(grammar::return_statement);
        let present = !self.check(TokenType::Semicolon);
        let value = match self.optional_expression(present) {
            Ok(Some(expr)) => expr,
            Ok(None) => Rc::new(Expr::Literal(LiteralType::Nil)),
            Err(error) => {
                return Err(error);
            },
        };
        match self.consume(TokenType::Semicolon, "expect ';' after return value") {
            Ok(_) => Ok(Stmt::Return { keyword, value }),
            Err(error) => Err(error),
        }
    }

    /// Parses a range loop from its variable on.
    #[verifier::spinoff_prover]
    fn range_for_loop(&mut self) -> (result: Result<Stmt, ParseError>)
        requires
            old(self).wf(),
            checks(old(self).tokens@, old(self).current as int, TokenType::Identifier),
        ensures
            final(self).went(
                *old(self),
                grammar::range_for_loop(old(self).tokens@, old(self).current as int),
            ),
            stmt_agrees(
                result,
                grammar::range_for_loop(old(self).tokens@, old(self).current as int),
            ),
        decreases old(self).tokens@.len() - old(self).current, 25nat, 0nat,
    {
        reveal(grammar::range_for_loop);
        reveal(grammar::expression);
        reveal(grammar::statement);
        let name = self.advance();
        match self.consume(TokenType::In, "expected 'in' after name") {
            Ok(_) => {},
            Err(error) => {
                return Err(error);
            },
        }
        let range_start = match self.expression() {
            Ok(expr) => expr,
            Err(error) => {
                return Err(error);
            },
        };
        match self.consume(TokenType::DotDot, "expected '..' after expression") {
            Ok(_) => {},
            Err(error) => {
                return Err(error);
            },
        }
        let range_end = match self.expression() {
            Ok(expr) => expr,
            Err(error) => {
                return Err(error);
            },
        };
        self.consume_optional(TokenType::RightParen);
        match self.statement() {
            Ok(body) => Ok(
                Stmt::ForRange {
                    name,
                    range_start: Rc::new(range_start),
                    range_end: Rc::new(range_end),
                    body: Rc::new(body),
                },
            ),
            Err(error) => Err(error),
        }
    }

    /// Parses the first clause of a three-clause loop.
    #[verifier::spinoff_prover]
    fn loop_initializer(&mut self) -> (result: Result<Option<Stmt>, ParseError>)
        requires
            old(self).wf(),
        ensures
            final(self).went(
                *old(self),
                grammar::loop_initializer(old(self).tokens@, old(self).current as int),
            ),
            initializer_agrees(
                result,
                grammar::loop_initializer(old(self).tokens@, old(self).current as int),
            ),
        decreases old(self).tokens@.len() - old(self).current, 24nat, 0nat,
    {
        reveal(grammar::var_declaration);
        reveal(grammar::expression_statement);
        if self.match_token(TokenType::Semicolon) {
            Ok(None)
        } else if self.match_token(TokenType::Var) {
            match self.var_declaration() {
                Ok(statement) => Ok(Some(statement)),
                Err(error) => Err(error),
            }
        } else {
            match self.expression_statement() {
                Ok(statement) => Ok(Some(statement)),
                Err(error) => Err(error),
            }
        }
    }

    /// The statement that a three-clause loop stands for.
    fn desugar(
        initializer: Option<Stmt>,
        condition: Option<Rc<Expr>>,
        increment: Option<Rc<Expr>>,
        body: Stmt,
    ) -> (statement: Stmt)
        requires
            initializer matches Some(first) ==> plain_stmt(first),
            condition matches Some(expr) ==> plain_expr(*expr),
            increment matches Some(expr) ==> plain_expr(*expr),
            plain_stmt(body),
        ensures
            plain_stmt(statement),
            statement.model() == grammar::desugared(
                match initializer {
                    Some(first) => Some(first.model()),
                    None => None,
                },
                match condition {
                    Some(expr) => Some(expr.model()),
                    None => None,
                },
                match increment {
                    Some(expr) => Some(expr.model()),
                    None => None,
                },
                body.model(),
            ),
    {
        let ghost body_model = body.model();
        let inner = match increment {
            Some(expr) => {
                let ghost step = expr.model();
                let last = Stmt::Expression(expr);
                assert(last.model() == StmtModel::Expression(step));
                let mut statements: Vec<Rc<Stmt>> = Vec::new();
                statements.push(Rc::new(body));
                statements.push(Rc::new(last));
                assert(models(statements@) =~= seq![body_model, StmtModel::Expression(step)]);
                assert(plain_stmts(statements@));
                Stmt::Block(statements)
            },
            None => body,
        };
        let ghost inner_model = inner.model();
        let test = match condition {
            Some(expr) => expr,
            None => {
                let always = Expr::Literal(LiteralType::Bool(true));
                assert(always.model() == ExprModel::Literal(LiteralType::Bool(true)));
                Rc::new(always)
            },
        };
        let ghost test_model = test.model();
        assert(plain_stmt(inner));
        assert(plain_expr(*test));
        let repeated = Stmt::While { condition: Some(test), body: Rc::new(inner) };
        assert(plain_stmt(repeated));
        assert(repeated.model() == StmtModel::While {
            condition: Some(test_model),
            body: Box::new(inner_model),
        });
        match initializer {
            Some(first) => {
                let ghost first_model = first.model();
                let ghost repeated_model = repeated.model();
                let mut statements: Vec<Rc<Stmt>> = Vec::new();
                statements.push(Rc::new(first));
                statements.push(Rc::new(repeated));
                assert(models(statements@) =~= seq![first_model, repeated_model]);
                assert(plain_stmts(statements@));
                Stmt::Block(statements)
            },
            None => repeated,
        }
    }

    /// Parses a three-clause loop from its first clause on, into the
    /// statements it stands for.
    #[verifier::spinoff_prover]
    fn manual_for_loop(&mut self) -> (result: Result<Stmt, ParseError>)
        requires
            old(self).wf(),
        ensures
            final(self).went(
                *old(self),
                grammar::manual_for_loop(old(self).tokens@, old(self).current as int),
            ),
            stmt_agrees(
                result,
                grammar::manual_for_loop(old(self).tokens@, old(self).current as int),
            ),
        decreases old(self).tokens@.len() - old(self).current, 25nat, 0nat,
    {
        reveal(grammar::manual_for_loop);
        reveal(grammar::statement);
        let initializer = match self.loop_initializer() {
            Ok(initializer) => initializer,
            Err(error) => {
                return Err(error);
            },
        };
        let tested = !self.check(TokenType::Semicolon);
        let condition = match self.optional_expression(tested) {
            Ok(condition) => condition,
            Err(error) => {
                return Err(error);
            },
        };
        match self.consume(TokenType::Semicolon, "expect ';' after loop condition") {
            Ok(_) => {},
            Err(error) => {
                return Err(error);
            },
        }
        let stepped = !self.check(TokenType::RightParen);
        let increment = match self.optional_expression(stepped) {
            Ok(increment) => increment,
            Err(error) => {
                return Err(error);
            },
        };
        self.consume_optional(TokenType::RightParen);
        match self.statement() {
            Ok(body) => Ok(Self::desugar(initializer, condition, increment, body)),
            Err(error) => Err(error),
        }
    }

    /// Parses the rest of a `for` after the keyword.
    #[verifier::spinoff_prover]
    fn for_statement(&mut self) -> (result: Result<Stmt, ParseError>)
        requires
            old(self).wf(),
        ensures
            final(self).went(
                *old(self),
                grammar::for_statement(old(self).tokens@, old(self).current as int),
            ),
            stmt_agrees(result, grammar::for_statement(old(self).tokens@, old(self).current as int)),
        decreases old(self).tokens@.len() - old(self).current, 26nat, 0nat,
    {
        reveal(grammar::for_statement);
        reveal(grammar::range_for_loop);
        reveal(grammar::manual_for_loop);
        self.consume_optional(TokenType::LeftParen);
        if self.check(TokenType::Identifier) {
            self.range_for_loop()
        } else {
            self.manual_for_loop()
        }
    }

    /// Parses a statement.
    #[verifier::spinoff_prover]
    fn statement(&mut self) -> (result: Result<Stmt, ParseError>)
        requires
            old(self).wf(),
        ensures
            final(self).went(*old(self), grammar::statement(old(self).tokens@, old(self).current as int)),
            stmt_agrees(result, grammar::statement(old(self).tokens@, old(self).current as int)),
            result is Ok ==> final(self).current > old(self).current,
        decreases old(self).tokens@.len() - old(self).current, 22nat, 0nat,
    {
        reveal(grammar::statement);
        reveal(grammar::if_statement);
        reveal(grammar::return_statement);
        reveal(grammar::while_statement);
        reveal(grammar::for_statement);
        reveal(grammar::block_rest);
        reveal(grammar::expression_statement);
        match self.kind() {
            TokenType::If => {
                self.current = self.current + 1;
                self.if_statement()
            },
            TokenType::Return => {
                let keyword = self.advance();
                self.return_statement(keyword)
            },
            TokenType::While => {
                self.current = self.current + 1;
                self.while_statement()
            },
            TokenType::For => {
                self.current = self.current + 1;
                self.for_statement()
            },
            TokenType::LeftBrace => {
                self.current = self.current + 1;
                match self.block() {
                    Ok(statements) => Ok(Stmt::Block(statements)),
                    Err(error) => Err(error),
                }
            },
            _ => self.expression_statement(),
        }
    }

    /// Parses the names of a function's parameters.
    #[verifier::spinoff_prover]
    #[verifier::loop_isolation(false)]
    fn parameters(&mut self) -> (result: Result<Vec<Token>, ParseError>)
        requires
            old(self).wf(),
        ensures
            final(self).went(
                *old(self),
                grammar::parameters(old(self).tokens@, old(self).current as int, Seq::empty()),
            ),
            names_agree(
                result,
                grammar::parameters(old(self).tokens@, old(self).current as int, Seq::empty()),
            ),
    {
        reveal(grammar::parameters);
        let ghost ts = self.tokens@;
        let ghost start = self.current as int;
        let ghost goal = grammar::parameters(ts, start, Seq::empty());
        let mut params: Vec<Token> = Vec::new();
        let mut more = true;
        while more
            invariant
                self.wf(),
                self.tokens == old(self).tokens,
                start <= self.current,
                more ==> goal == grammar::parameters(ts, self.current as int, params@).after(
                    (self.current - start) as nat,
                ),
                !more ==> goal == (Parsed::Done {
                    value: params@,
                    used: (self.current - start) as nat,
                }),
            decreases self.tokens@.len() - self.current, (if more {
                1nat
            } else {
                0nat
            }),
        {
            let ghost before = params@;
            let ghost here = self.current as int;
            match self.consume(TokenType::Identifier, "expect parameter name.") {
                Ok(name) => {
                    params.push(name);
                },
                Err(error) => {
                    return Err(error);
                },
            }
            more = self.match_token(TokenType::Comma);
            proof {
                if more {
                    let rest = grammar::parameters(ts, here + 2, params@);
                    assert(grammar::parameters(ts, here, before) == rest.after(2));
                    assert(rest.after(2).after((here - start) as nat) == rest.after(
                        (self.current - start) as nat,
                    ));
                }
            }
        }
        Ok(params)
    }

    /// Parses the rest of a function's declaration after `fun`.
    #[verifier::spinoff_prover]
    fn function_declaration(&mut self) -> (result: Result<Stmt, ParseError>)
        requires
            old(self).wf(),
        ensures
            final(self).went(
                *old(self),
                grammar::function_declaration(old(self).tokens@, old(self).current as int),
            ),
            stmt_agrees(
                result,
                grammar::function_declaration(old(self).tokens@, old(self).current as int),
            ),
        decreases old(self).tokens@.len() - old(self).current, 27nat, 0nat,
    {
        reveal(grammar::function_declaration);
        reveal(grammar::block_rest);
        let name = match self.consume(TokenType::Identifier, "expect function name") {
            Ok(name) => name,
            Err(error) => {
                return Err(error);
            },
        };
        match self.consume(TokenType::LeftParen, "expect '(' after function name") {
            Ok(_) => {},
            Err(error) => {
                return Err(error);
            },
        }
        let params = if self.check(TokenType::RightParen) {
            Vec::new()
        } else {
            match self.parameters() {
                Ok(params) => params,
                Err(error) => {
                    return Err(error);
                },
            }
        };
        match self.consume(TokenType::RightParen, "expect ')' after function parameters") {
            Ok(_) => {},
            Err(error) => {
                return Err(error);
            },
        }
        match self.consume(TokenType::LeftBrace, "expect '{' before function body") {
            Ok(_) => {},
            Err(error) => {
                return Err(error);
            },
        }
        match self.block() {
            Ok(body) => Ok(Stmt::FunctionDecl { name, params, body }),
            Err(error) => Err(error),
        }
    }

    /// Parses a declaration or a statement.
    #[verifier::spinoff_prover]
    fn declaration(&mut self) -> (result: Result<Stmt, ParseError>)
        requires
            old(self).wf(),
        ensures
            final(self).went(
                *old(self),
                grammar::declaration(old(self).tokens@, old(self).current as int),
            ),
            stmt_agrees(result, grammar::declaration(old(self).tokens@, old(self).current as int)),
            result is Ok ==> final(self).current > old(self).current,
        decreases old(self).tokens@.len() - old(self).current, 23nat, 0nat,
    {
        reveal(grammar::declaration);
        reveal(grammar::function_declaration);
        reveal(grammar::var_declaration);
        reveal(grammar::statement);
        match self.kind() {
            TokenType::Fun => {
                self.current = self.current + 1;
                self.function_declaration()
            },
            TokenType::Var => {
                self.current = self.current + 1;
                self.var_declaration()
            },
            _ => self.statement(),
        }
    }

    /// Parses the whole token sequence into the statements of a program, or
    /// gives the first violation of the grammar.
    #[verifier::spinoff_prover]
    #[verifier::loop_isolation(false)]
    pub fn parse(&mut self) -> (result: Result<Vec<Rc<Stmt>>, ParseError>)
        requires
            old(self).wf(),
            old(self).current == 0,
        ensures
            final(self).wf(),
            final(self).tokens == old(self).tokens,
            stmts_agree(result, grammar::program(old(self).tokens@)),
    {
        reveal(grammar::program_rest);
        reveal(grammar::declaration);
        let ghost ts = self.tokens@;
        let ghost goal = grammar::program(ts);
        let mut statements: Vec<Rc<Stmt>> = Vec::new();
        assert(models(statements@) =~= Seq::empty());
        while !self.is_at_end()
            invariant
                self.wf(),
                self.tokens == old(self).tokens,
                plain_stmts(statements@),
                goal == grammar::program_rest(ts, self.current as int, models(statements@)).after(
                    self.current as nat,
                ),
            decreases self.tokens@.len() - self.current,
        {
            let ghost before = models(statements@);
            let ghost here = self.current as int;
            match self.declaration() {
                Ok(statement) => {
                    statements.push(Rc::new(statement));
                    assert(models(statements@) =~= before.push(statement.model()));
                },
                Err(error) => {
                    return Err(error);
                },
            }
            proof {
                let used = (self.current - here) as nat;
                let rest = grammar::program_rest(ts, self.current as int, models(statements@));
                assert(grammar::program_rest(ts, here, before) == rest.after(used));
                assert(rest.after(used).after(here as nat) == rest.after(self.current as nat));
            }
        }
        Ok(statements)
    }
}

} // verus!
