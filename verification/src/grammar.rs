use crate::ast::{ExprModel, StmtModel};
use crate::token::{Token, TokenType};
use crate::types::LiteralType;
use vstd::prelude::*;

verus! {

/// What parsing from a place in the tokens gives: a tree and the number of
/// tokens it was read from, or the first violation of the grammar with the
/// token it was found at.
#[allow(inconsistent_fields)]
pub enum Parsed<T> {
    Done { value: T, used: nat },
    Fault { token: Token, message: Seq<char> },
}

impl<T> Parsed<T> {
    /// The same result, seen from `before` tokens earlier.
    pub open spec fn after(self, before: nat) -> Parsed<T> {
        match self {
            Parsed::Done { value, used } => Parsed::Done { value, used: used + before },
            Parsed::Fault { token, message } => Parsed::Fault { token, message },
        }
    }
}

/// The kind of the token at `pos`; the end of input beyond the tokens.
pub open spec fn kind_at(ts: Seq<Token>, pos: int) -> TokenType {
    if 0 <= pos < ts.len() {
        ts[pos].t_type
    } else {
        TokenType::EOF
    }
}

/// Whether the token at `pos` is of this kind. The end of input is of no
/// kind.
pub open spec fn checks(ts: Seq<Token>, pos: int, kind: TokenType) -> bool {
    kind_at(ts, pos) != TokenType::EOF && kind_at(ts, pos) == kind
}

/// The number of tokens from `pos` on.
pub open spec fn remaining(ts: Seq<Token>, pos: int) -> nat {
    if pos <= ts.len() {
        (ts.len() - pos) as nat
    } else {
        0
    }
}

/// A token of this kind at `pos`, or the violation `message` at the token
/// that is there.
pub open spec fn consumed(ts: Seq<Token>, pos: int, kind: TokenType, message: Seq<char>) -> Parsed<
    Token,
> {
    if checks(ts, pos, kind) {
        Parsed::Done { value: ts[pos], used: 1 }
    } else {
        Parsed::Fault { token: ts[pos], message }
    }
}

/// One if the token at `pos` is of this kind, else zero: the tokens that an
/// optional token takes.
pub open spec fn optional(ts: Seq<Token>, pos: int, kind: TokenType) -> nat {
    if checks(ts, pos, kind) {
        1
    } else {
        0
    }
}

/// primary: `false`, `true`, `nil`, a number, a string, a name, or an
/// expression in parentheses.
#[verifier::opaque]
pub open spec fn primary(ts: Seq<Token>, pos: int) -> Parsed<ExprModel>
    decreases remaining(ts, pos), 0nat, 0nat,
{
    match kind_at(ts, pos) {
        TokenType::False => Parsed::Done {
            value: ExprModel::Literal(LiteralType::Bool(false)),
            used: 1,
        },
        TokenType::True => Parsed::Done {
            value: ExprModel::Literal(LiteralType::Bool(true)),
            used: 1,
        },
        TokenType::Nil => Parsed::Done { value: ExprModel::Literal(LiteralType::Nil), used: 1 },
        TokenType::Number => Parsed::Done { value: ExprModel::Literal(ts[pos].literal), used: 1 },
        TokenType::String => Parsed::Done { value: ExprModel::Literal(ts[pos].literal), used: 1 },
        TokenType::Identifier => Parsed::Done { value: ExprModel::Variable(ts[pos]), used: 1 },
        TokenType::LeftParen => match expression(ts, pos + 1) {
            Parsed::Done { value, used } => if checks(ts, pos + 1 + used, TokenType::RightParen) {
                Parsed::Done { value: ExprModel::Group(Box::new(value)), used: used + 2 }
            } else {
                Parsed::Fault {
                    token: ts[pos + 1 + used],
                    message: "expected ')' after expression"@,
                }
            },
            Parsed::Fault { token, message } => Parsed::Fault { token, message },
        },
        _ => Parsed::Fault { token: ts[pos], message: "expect expression"@ },
    }
}

/// The arguments of a call from `pos` on, after those in `before`: one
/// expression, and more after each comma.
#[verifier::opaque]
pub open spec fn arguments(ts: Seq<Token>, pos: int, before: Seq<ExprModel>) -> Parsed<
    Seq<ExprModel>,
>
    decreases remaining(ts, pos), 16nat, 0nat,
{
    match expression(ts, pos) {
        Parsed::Done { value, used } => if checks(ts, pos + used, TokenType::Comma) {
            arguments(ts, pos + used + 1, before.push(value)).after(used + 1)
        } else {
            Parsed::Done { value: before.push(value), used }
        },
        Parsed::Fault { token, message } => Parsed::Fault { token, message },
    }
}

/// The rest of a call of `callee` after its opening parenthesis: the
/// arguments, if any, and the closing parenthesis.
#[verifier::opaque]
pub open spec fn finish_call(ts: Seq<Token>, pos: int, callee: ExprModel) -> Parsed<ExprModel>
    decreases remaining(ts, pos), 17nat, 0nat,
{
    let listed = if checks(ts, pos, TokenType::RightParen) {
        Parsed::Done { value: Seq::empty(), used: 0 }
    } else {
        arguments(ts, pos, Seq::empty())
    };
    match listed {
        Parsed::Done { value, used } => if checks(ts, pos + used, TokenType::RightParen) {
            Parsed::Done {
                value: ExprModel::Call {
                    callee: Box::new(callee),
                    paren: ts[pos + used],
                    args: value,
                },
                used: used + 1,
            }
        } else {
            Parsed::Fault { token: ts[pos + used], message: "expect ')' after arguments"@ }
        },
        Parsed::Fault { token, message } => Parsed::Fault { token, message },
    }
}

/// The calls that follow `callee`: each argument list in parentheses calls
/// what stands before it.
#[verifier::opaque]
pub open spec fn call_rest(ts: Seq<Token>, pos: int, callee: ExprModel) -> Parsed<ExprModel>
    decreases remaining(ts, pos), 1nat, 0nat,
{
    if checks(ts, pos, TokenType::LeftParen) {
        match finish_call(ts, pos + 1, callee) {
            Parsed::Done { value, used } => call_rest(ts, pos + 1 + used, value).after(used + 1),
            Parsed::Fault { token, message } => Parsed::Fault { token, message },
        }
    } else {
        Parsed::Done { value: callee, used: 0 }
    }
}

/// call: a primary expression and the calls that follow it.
#[verifier::opaque]
pub open spec fn call(ts: Seq<Token>, pos: int) -> Parsed<ExprModel>
    decreases remaining(ts, pos), 2nat, 0nat,
{
    match primary(ts, pos) {
        Parsed::Done { value, used } => call_rest(ts, pos + used, value).after(used),
        Parsed::Fault { token, message } => Parsed::Fault { token, message },
    }
}

/// unary: any number of `!` and `-` before a call.
#[verifier::opaque]
pub open spec fn unary(ts: Seq<Token>, pos: int) -> Parsed<ExprModel>
    decreases remaining(ts, pos), 3nat, 0nat,
{
    if checks(ts, pos, TokenType::Bang) || checks(ts, pos, TokenType::Minus) {
        match unary(ts, pos + 1) {
            Parsed::Done { value, used } => Parsed::Done {
                value: ExprModel::Unary { operator: ts[pos], right: Box::new(value) },
                used: used + 1,
            },
            Parsed::Fault { token, message } => Parsed::Fault { token, message },
        }
    } else {
        call(ts, pos)
    }
}

/// Whether a token of this kind is a binary operator of this level: 0 for
/// `/ * %`, 1 for `- +`, 2 for `> >= < <=`, 3 for `!= ==`.
pub open spec fn operator_of(level: nat, kind: TokenType) -> bool {
    if level == 0 {
        kind == TokenType::Slash || kind == TokenType::Star || kind == TokenType::Percent
    } else if level == 1 {
        kind == TokenType::Minus || kind == TokenType::Plus
    } else if level == 2 {
        kind == TokenType::Greater || kind == TokenType::GreaterEqual || kind == TokenType::Less
            || kind == TokenType::LessEqual
    } else {
        kind == TokenType::BangEqual || kind == TokenType::EqualEqual
    }
}

/// An operand of a binary operator of this level: an expression of the level
/// below, or a unary expression below the lowest.
#[verifier::opaque]
pub open spec fn operand(ts: Seq<Token>, pos: int, level: nat) -> Parsed<ExprModel>
    decreases remaining(ts, pos), 4 + 2 * level, 0nat,
{
    if level == 0 {
        unary(ts, pos)
    } else {
        binary(ts, pos, (level - 1) as nat)
    }
}

/// The operators of this level and their right operands that follow `left`:
/// each makes a binary expression of what stands before it, so a chain
/// groups from the left.
#[verifier::opaque]
pub open spec fn binary_rest(ts: Seq<Token>, pos: int, level: nat, left: ExprModel) -> Parsed<
    ExprModel,
>
    decreases remaining(ts, pos), 4 + 2 * level, 1nat,
{
    if operator_of(level, kind_at(ts, pos)) {
        match operand(ts, pos + 1, level) {
            Parsed::Done { value, used } => binary_rest(
                ts,
                pos + 1 + used,
                level,
                ExprModel::Binary {
                    left: Box::new(left),
                    operator: ts[pos],
                    right: Box::new(value),
                },
            ).after(used + 1),
            Parsed::Fault { token, message } => Parsed::Fault { token, message },
        }
    } else {
        Parsed::Done { value: left, used: 0 }
    }
}

/// A chain of binary operators of this level: factor at level 0, term at 1,
/// comparison at 2, equality at 3.
#[verifier::opaque]
pub open spec fn binary(ts: Seq<Token>, pos: int, level: nat) -> Parsed<ExprModel>
    decreases remaining(ts, pos), 4 + 2 * level, 2nat,
{
    match operand(ts, pos, level) {
        Parsed::Done { value, used } => binary_rest(ts, pos + used, level, value).after(used),
        Parsed::Fault { token, message } => Parsed::Fault { token, message },
    }
}

/// and: equalities joined by `and`, grouped from the right.
#[verifier::opaque]
pub open spec fn and(ts: Seq<Token>, pos: int) -> Parsed<ExprModel>
    decreases remaining(ts, pos), 12nat, 0nat,
{
    match binary(ts, pos, 3) {
        Parsed::Done { value, used } => if checks(ts, pos + used, TokenType::And) {
            match and(ts, pos + used + 1) {
                Parsed::Done { value: right, used: more } => Parsed::Done {
                    value: ExprModel::Logical {
                        left: Box::new(value),
                        operator: ts[pos + used],
                        right: Box::new(right),
                    },
                    used: used + 1 + more,
                },
                Parsed::Fault { token, message } => Parsed::Fault { token, message },
            }
        } else {
            Parsed::Done { value, used }
        },
        Parsed::Fault { token, message } => Parsed::Fault { token, message },
    }
}

/// or: `and` expressions joined by `or`, grouped from the right.
#[verifier::opaque]
pub open spec fn or(ts: Seq<Token>, pos: int) -> Parsed<ExprModel>
    decreases remaining(ts, pos), 13nat, 0nat,
{
    match and(ts, pos) {
        Parsed::Done { value, used } => if checks(ts, pos + used, TokenType::Or) {
            match or(ts, pos + used + 1) {
                Parsed::Done { value: right, used: more } => Parsed::Done {
                    value: ExprModel::Logical {
                        left: Box::new(value),
                        operator: ts[pos + used],
                        right: Box::new(right),
                    },
                    used: used + 1 + more,
                },
                Parsed::Fault { token, message } => Parsed::Fault { token, message },
            }
        } else {
            Parsed::Done { value, used }
        },
        Parsed::Fault { token, message } => Parsed::Fault { token, message },
    }
}

/// Whether a token of this kind is a compound assignment operator.
pub open spec fn compound(kind: TokenType) -> bool {
    kind == TokenType::PlusEqual || kind == TokenType::MinusEqual || kind == TokenType::StarEqual
        || kind == TokenType::SlashEqual || kind == TokenType::PercentEqual
}

/// assignment: an `or` expression; or a name, `=` and an assignment, which
/// assigns; or a name, a compound operator and an assignment, which assigns
/// to the name the binary expression of the name, the operator and the
/// value. Anything but a name before the operator is a violation.
#[verifier::opaque]
pub open spec fn assignment(ts: Seq<Token>, pos: int) -> Parsed<ExprModel>
    decreases remaining(ts, pos), 14nat, 0nat,
{
    match or(ts, pos) {
        Parsed::Done { value, used } => if checks(ts, pos + used, TokenType::Equal) || (kind_at(
            ts,
            pos + used,
        ) != TokenType::EOF && compound(kind_at(ts, pos + used))) {
            match value {
                ExprModel::Variable(name) => match assignment(ts, pos + used + 1) {
                    Parsed::Done { value: right, used: more } => Parsed::Done {
                        value: ExprModel::Assign {
                            name,
                            value: if checks(ts, pos + used, TokenType::Equal) {
                                Box::new(right)
                            } else {
                                Box::new(
                                    ExprModel::Binary {
                                        left: Box::new(ExprModel::Variable(name)),
                                        operator: ts[pos + used],
                                        right: Box::new(right),
                                    },
                                )
                            },
                        },
                        used: used + 1 + more,
                    },
                    Parsed::Fault { token, message } => Parsed::Fault { token, message },
                },
                _ => Parsed::Fault {
                    token: ts[pos + used + 1],
                    message: "invalid assignment target"@,
                },
            }
        } else {
            Parsed::Done { value, used }
        },
        Parsed::Fault { token, message } => Parsed::Fault { token, message },
    }
}

/// expression: an assignment.
#[verifier::opaque]
pub open spec fn expression(ts: Seq<Token>, pos: int) -> Parsed<ExprModel>
    decreases remaining(ts, pos), 15nat, 0nat,
{
    assignment(ts, pos)
}

/// An expression statement: an expression and `;`.
#[verifier::opaque]
pub open spec fn expression_statement(ts: Seq<Token>, pos: int) -> Parsed<StmtModel>
    decreases remaining(ts, pos), 20nat, 0nat,
{
    match expression(ts, pos) {
        Parsed::Done { value, used } => match consumed(
            ts,
            pos + used,
            TokenType::Semicolon,
            "expect ';' after expression"@,
        ) {
            Parsed::Done { value: _, used: _ } => Parsed::Done {
                value: StmtModel::Expression(value),
                used: used + 1,
            },
            Parsed::Fault { token, message } => Parsed::Fault { token, message },
        },
        Parsed::Fault { token, message } => Parsed::Fault { token, message },
    }
}

/// An expression from `pos` on where `present` says there is one, and none
/// otherwise.
pub open spec fn optional_expression(ts: Seq<Token>, pos: int, present: bool) -> Parsed<
    Option<ExprModel>,
>
    decreases remaining(ts, pos), 16nat, 0nat, 0nat,
{
    if present {
        match expression(ts, pos) {
            Parsed::Done { value, used } => Parsed::Done { value: Some(value), used },
            Parsed::Fault { token, message } => Parsed::Fault { token, message },
        }
    } else {
        Parsed::Done { value: None, used: 0 }
    }
}

/// The rest of a variable declaration after `var`: a name, an initial value
/// after `=` if there is one, and `;`.
#[verifier::opaque]
pub open spec fn var_declaration(ts: Seq<Token>, pos: int) -> Parsed<StmtModel>
    decreases remaining(ts, pos), 21nat, 0nat,
{
    match consumed(ts, pos, TokenType::Identifier, "expect variable name"@) {
        Parsed::Done { value: name, used: _ } => match optional_expression(
            ts,
            pos + 2,
            checks(ts, pos + 1, TokenType::Equal),
        ).after(optional(ts, pos + 1, TokenType::Equal)) {
            Parsed::Done { value: initializer, used } => match consumed(
                ts,
                pos + 1 + used,
                TokenType::Semicolon,
                "expect ';' after variable declaration"@,
            ) {
                Parsed::Done { value: _, used: _ } => Parsed::Done {
                    value: StmtModel::VarDecl { name, initializer },
                    used: used + 2,
                },
                Parsed::Fault { token, message } => Parsed::Fault { token, message },
            },
            Parsed::Fault { token, message } => Parsed::Fault { token, message },
        },
        Parsed::Fault { token, message } => Parsed::Fault { token, message },
    }
}

/// The rest of a block after those statements in `before`: declarations up to
/// the closing brace. A declaration is never read from no token.
#[verifier::opaque]
pub open spec fn block_rest(ts: Seq<Token>, pos: int, before: Seq<StmtModel>) -> Parsed<
    Seq<StmtModel>,
>
    decreases remaining(ts, pos), 24nat, 0nat,
{
    if kind_at(ts, pos) != TokenType::RightBrace && kind_at(ts, pos) != TokenType::EOF {
        match declaration(ts, pos) {
            Parsed::Done { value, used } => if used > 0 {
                block_rest(ts, pos + used, before.push(value)).after(used)
            } else {
                Parsed::Fault { token: ts[pos], message: "expect expression"@ }
            },
            Parsed::Fault { token, message } => Parsed::Fault { token, message },
        }
    } else {
        match consumed(ts, pos, TokenType::RightBrace, "expect '}' after block"@) {
            Parsed::Done { value: _, used: _ } => Parsed::Done { value: before, used: 1 },
            Parsed::Fault { token, message } => Parsed::Fault { token, message },
        }
    }
}

/// The rest of an `if` after the keyword: the condition, which may stand in
/// parentheses, the statement to execute, and after `else` the other one. An
/// `else` belongs to the nearest `if` before it.
#[verifier::opaque]
pub open spec fn if_statement(ts: Seq<Token>, pos: int) -> Parsed<StmtModel>
    decreases remaining(ts, pos), 25nat, 0nat,
{
    let first = pos + optional(ts, pos, TokenType::LeftParen);
    match expression(ts, first) {
        Parsed::Done { value: condition, used } => {
            let second = first + used + optional(ts, first + used, TokenType::RightParen);
            match statement(ts, second) {
                Parsed::Done { value: then_branch, used: more } => if checks(
                    ts,
                    second + more,
                    TokenType::Else,
                ) {
                    match statement(ts, second + more + 1) {
                        Parsed::Done { value: else_branch, used: last } => Parsed::Done {
                            value: StmtModel::If {
                                condition,
                                then_branch: Box::new(then_branch),
                                else_branch: Some(Box::new(else_branch)),
                            },
                            used: (second + more + 1 + last - pos) as nat,
                        },
                        Parsed::Fault { token, message } => Parsed::Fault { token, message },
                    }
                } else {
                    Parsed::Done {
                        value: StmtModel::If {
                            condition,
                            then_branch: Box::new(then_branch),
                            else_branch: None,
                        },
                        used: (second + more - pos) as nat,
                    }
                },
                Parsed::Fault { token, message } => Parsed::Fault { token, message },
            }
        },
        Parsed::Fault { token, message } => Parsed::Fault { token, message },
    }
}

/// The rest of a `while` after the keyword: the condition, which may stand in
/// parentheses, and the body.
#[verifier::opaque]
pub open spec fn while_statement(ts: Seq<Token>, pos: int) -> Parsed<StmtModel>
    decreases remaining(ts, pos), 25nat, 0nat,
{
    let first = pos + optional(ts, pos, TokenType::LeftParen);
    match expression(ts, first) {
        Parsed::Done { value: condition, used } => {
            let second = first + used + optional(ts, first + used, TokenType::RightParen);
            match statement(ts, second) {
                Parsed::Done { value: body, used: more } => Parsed::Done {
                    value: StmtModel::While { condition: Some(condition), body: Box::new(body) },
                    used: (second + more - pos) as nat,
                },
                Parsed::Fault { token, message } => Parsed::Fault { token, message },
            }
        },
        Parsed::Fault { token, message } => Parsed::Fault { token, message },
    }
}

/// The rest of a `return` after the keyword: a value, nil where there is
/// none, and `;`.
#[verifier::opaque]
pub open spec fn return_statement(ts: Seq<Token>, pos: int, keyword: Token) -> Parsed<StmtModel>
    decreases remaining(ts, pos), 25nat, 0nat,
{
    match optional_expression(ts, pos, !checks(ts, pos, TokenType::Semicolon)) {
        Parsed::Done { value, used } => match consumed(
            ts,
            pos + used,
            TokenType::Semicolon,
            "expect ';' after return value"@,
        ) {
            Parsed::Done { value: _, used: _ } => Parsed::Done {
                value: StmtModel::Return {
                    keyword,
                    value: match value {
                        Some(expr) => expr,
                        None => ExprModel::Literal(LiteralType::Nil),
                    },
                },
                used: used + 1,
            },
            Parsed::Fault { token, message } => Parsed::Fault { token, message },
        },
        Parsed::Fault { token, message } => Parsed::Fault { token, message },
    }
}

/// A range loop from its variable on: the name, `in`, the first bound, `..`,
/// the second bound, a closing parenthesis if there is one, and the body.
#[verifier::opaque]
pub open spec fn range_for_loop(ts: Seq<Token>, pos: int) -> Parsed<StmtModel>
    decreases remaining(ts, pos), 25nat, 0nat,
{
    match consumed(ts, pos + 1, TokenType::In, "expected 'in' after name"@) {
        Parsed::Done { value: _, used: _ } => match expression(ts, pos + 2) {
            Parsed::Done { value: range_start, used } => match consumed(
                ts,
                pos + 2 + used,
                TokenType::DotDot,
                "expected '..' after expression"@,
            ) {
                Parsed::Done { value: _, used: _ } => match expression(ts, pos + 3 + used) {
                    Parsed::Done { value: range_end, used: more } => {
                        let inner = pos + 3 + used + more + optional(
                            ts,
                            pos + 3 + used + more,
                            TokenType::RightParen,
                        );
                        match statement(ts, inner) {
                            Parsed::Done { value: body, used: last } => Parsed::Done {
                                value: StmtModel::ForRange {
                                    name: ts[pos],
                                    range_start,
                                    range_end,
                                    body: Box::new(body),
                                },
                                used: (inner + last - pos) as nat,
                            },
                            Parsed::Fault { token, message } => Parsed::Fault { token, message },
                        }
                    },
                    Parsed::Fault { token, message } => Parsed::Fault { token, message },
                },
                Parsed::Fault { token, message } => Parsed::Fault { token, message },
            },
            Parsed::Fault { token, message } => Parsed::Fault { token, message },
        },
        Parsed::Fault { token, message } => Parsed::Fault { token, message },
    }
}

/// The first clause of a three-clause loop: `;` alone, a variable
/// declaration, or an expression statement.
pub open spec fn loop_initializer(ts: Seq<Token>, pos: int) -> Parsed<Option<StmtModel>>
    decreases remaining(ts, pos), 24nat, 0nat,
{
    if checks(ts, pos, TokenType::Semicolon) {
        Parsed::Done { value: None, used: 1 }
    } else {
        let first = if checks(ts, pos, TokenType::Var) {
            var_declaration(ts, pos + 1).after(1)
        } else {
            expression_statement(ts, pos)
        };
        match first {
            Parsed::Done { value, used } => Parsed::Done { value: Some(value), used },
            Parsed::Fault { token, message } => Parsed::Fault { token, message },
        }
    }
}

/// What a three-clause loop stands for: a `while` on the condition, or on
/// `true` where there is none; whose body is the loop's body, in a block with
/// the increment after it where there is one; in a block after the
/// initializer where there is one.
pub open spec fn desugared(
    initializer: Option<StmtModel>,
    condition: Option<ExprModel>,
    increment: Option<ExprModel>,
    body: StmtModel,
) -> StmtModel {
    let inner = match increment {
        Some(expr) => StmtModel::Block(seq![body, StmtModel::Expression(expr)]),
        None => body,
    };
    let test = match condition {
        Some(expr) => expr,
        None => ExprModel::Literal(LiteralType::Bool(true)),
    };
    let repeated = StmtModel::While { condition: Some(test), body: Box::new(inner) };
    match initializer {
        Some(first) => StmtModel::Block(seq![first, repeated]),
        None => repeated,
    }
}

/// A three-clause loop from its first clause on: the initializer, a condition
/// if there is one, `;`, an increment unless a closing parenthesis follows,
/// that parenthesis if there is one, and the body.
#[verifier::opaque]
pub open spec fn manual_for_loop(ts: Seq<Token>, pos: int) -> Parsed<StmtModel>
    decreases remaining(ts, pos), 25nat, 0nat,
{
    match loop_initializer(ts, pos) {
        Parsed::Done { value: initializer, used } => match optional_expression(
            ts,
            pos + used,
            !checks(ts, pos + used, TokenType::Semicolon),
        ) {
            Parsed::Done { value: condition, used: more } => match consumed(
                ts,
                pos + used + more,
                TokenType::Semicolon,
                "expect ';' after loop condition"@,
            ) {
                Parsed::Done { value: _, used: _ } => {
                    let third = pos + used + more + 1;
                    match optional_expression(
                        ts,
                        third,
                        !checks(ts, third, TokenType::RightParen),
                    ) {
                        Parsed::Done { value: increment, used: last } => {
                            let inner = third + last + optional(
                                ts,
                                third + last,
                                TokenType::RightParen,
                            );
                            match statement(ts, inner) {
                                Parsed::Done { value: body, used: rest } => Parsed::Done {
                                    value: desugared(initializer, condition, increment, body),
                                    used: (inner + rest - pos) as nat,
                                },
                                Parsed::Fault { token, message } => Parsed::Fault {
                                    token,
                                    message,
                                },
                            }
                        },
                        Parsed::Fault { token, message } => Parsed::Fault { token, message },
                    }
                },
                Parsed::Fault { token, message } => Parsed::Fault { token, message },
            },
            Parsed::Fault { token, message } => Parsed::Fault { token, message },
        },
        Parsed::Fault { token, message } => Parsed::Fault { token, message },
    }
}

/// The rest of a `for` after the keyword and an opening parenthesis, if
/// there is one: a range loop where a name comes first, else a three-clause
/// loop.
#[verifier::opaque]
pub open spec fn for_statement(ts: Seq<Token>, pos: int) -> Parsed<StmtModel>
    decreases remaining(ts, pos), 26nat, 0nat,
{
    let first = pos + optional(ts, pos, TokenType::LeftParen);
    if checks(ts, first, TokenType::Identifier) {
        range_for_loop(ts, first).after(optional(ts, pos, TokenType::LeftParen))
    } else {
        manual_for_loop(ts, first).after(optional(ts, pos, TokenType::LeftParen))
    }
}

/// statement: an `if`, a `return`, a `while`, a `for`, a block, or an
/// expression statement.
#[verifier::opaque]
pub open spec fn statement(ts: Seq<Token>, pos: int) -> Parsed<StmtModel>
    decreases remaining(ts, pos), 22nat, 0nat,
{
    match kind_at(ts, pos) {
        TokenType::If => if_statement(ts, pos + 1).after(1),
        TokenType::Return => return_statement(ts, pos + 1, ts[pos]).after(1),
        TokenType::While => while_statement(ts, pos + 1).after(1),
        TokenType::For => for_statement(ts, pos + 1).after(1),
        TokenType::LeftBrace => match block_rest(ts, pos + 1, Seq::empty()) {
            Parsed::Done { value, used } => Parsed::Done {
                value: StmtModel::Block(value),
                used: used + 1,
            },
            Parsed::Fault { token, message } => Parsed::Fault { token, message },
        },
        _ => expression_statement(ts, pos),
    }
}

/// The parameters of a function from `pos` on, after those in `before`: one
/// name, and more after each comma.
#[verifier::opaque]
pub open spec fn parameters(ts: Seq<Token>, pos: int, before: Seq<Token>) -> Parsed<Seq<Token>>
    decreases remaining(ts, pos), 20nat, 0nat,
{
    match consumed(ts, pos, TokenType::Identifier, "expect parameter name."@) {
        Parsed::Done { value: name, used: _ } => if checks(ts, pos + 1, TokenType::Comma) {
            parameters(ts, pos + 2, before.push(name)).after(2)
        } else {
            Parsed::Done { value: before.push(name), used: 1 }
        },
        Parsed::Fault { token, message } => Parsed::Fault { token, message },
    }
}

/// The rest of a function's declaration after `fun`: the name, the
/// parameters in parentheses, and the body in braces.
#[verifier::opaque]
pub open spec fn function_declaration(ts: Seq<Token>, pos: int) -> Parsed<StmtModel>
    decreases remaining(ts, pos), 27nat, 0nat,
{
    match consumed(ts, pos, TokenType::Identifier, "expect function name"@) {
        Parsed::Done { value: name, used: _ } => match consumed(
            ts,
            pos + 1,
            TokenType::LeftParen,
            "expect '(' after function name"@,
        ) {
            Parsed::Done { value: _, used: _ } => {
                let listed = if checks(ts, pos + 2, TokenType::RightParen) {
                    Parsed::Done { value: Seq::empty(), used: 0 }
                } else {
                    parameters(ts, pos + 2, Seq::empty())
                };
                match listed {
                    Parsed::Done { value: params, used } => match consumed(
                        ts,
                        pos + 2 + used,
                        TokenType::RightParen,
                        "expect ')' after function parameters"@,
                    ) {
                        Parsed::Done { value: _, used: _ } => match consumed(
                            ts,
                            pos + 3 + used,
                            TokenType::LeftBrace,
                            "expect '{' before function body"@,
                        ) {
                            Parsed::Done { value: _, used: _ } => match block_rest(
                                ts,
                                pos + 4 + used,
                                Seq::empty(),
                            ) {
                                Parsed::Done { value: body, used: more } => Parsed::Done {
                                    value: StmtModel::FunctionDecl { name, params, body },
                                    used: used + more + 4,
                                },
                                Parsed::Fault { token, message } => Parsed::Fault {
                                    token,
                                    message,
                                },
                            },
                            Parsed::Fault { token, message } => Parsed::Fault { token, message },
                        },
                        Parsed::Fault { token, message } => Parsed::Fault { token, message },
                    },
                    Parsed::Fault { token, message } => Parsed::Fault { token, message },
                }
            },
            Parsed::Fault { token, message } => Parsed::Fault { token, message },
        },
        Parsed::Fault { token, message } => Parsed::Fault { token, message },
    }
}

/// declaration: a function after `fun`, a variable after `var`, or a
/// statement.
#[verifier::opaque]
pub open spec fn declaration(ts: Seq<Token>, pos: int) -> Parsed<StmtModel>
    decreases remaining(ts, pos), 23nat, 0nat,
{
    match kind_at(ts, pos) {
        TokenType::Fun => function_declaration(ts, pos + 1).after(1),
        TokenType::Var => var_declaration(ts, pos + 1).after(1),
        _ => statement(ts, pos),
    }
}

/// The rest of a program after those statements in `before`: declarations up
/// to the end of input.
#[verifier::opaque]
pub open spec fn program_rest(ts: Seq<Token>, pos: int, before: Seq<StmtModel>) -> Parsed<
    Seq<StmtModel>,
>
    decreases remaining(ts, pos), 28nat, 0nat,
{
    if kind_at(ts, pos) != TokenType::EOF {
        match declaration(ts, pos) {
            Parsed::Done { value, used } => if used > 0 {
                program_rest(ts, pos + used, before.push(value)).after(used)
            } else {
                Parsed::Fault { token: ts[pos], message: "expect expression"@ }
            },
            Parsed::Fault { token, message } => Parsed::Fault { token, message },
        }
    } else {
        Parsed::Done { value: before, used: 0 }
    }
}

/// program: declarations up to the end of input. Parsing stops at the first
/// violation.
pub open spec fn program(ts: Seq<Token>) -> Parsed<Seq<StmtModel>> {
    program_rest(ts, 0, Seq::empty())
}

/// A declaration is never read from no token: the length that blocks and
/// programs ask of the declarations in them is always there.
pub proof fn lemma_declaration_reads_tokens(ts: Seq<Token>, pos: int)
    ensures
        declaration(ts, pos) matches Parsed::Done { value, used } ==> used > 0,
{
    reveal(declaration);
    reveal(statement);
    reveal(expression_statement);
}

} // verus!
