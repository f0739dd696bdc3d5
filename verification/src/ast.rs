use crate::token::Token;
use crate::types::LiteralType;
use std::rc::Rc;
use vstd::prelude::*;

verus! {

/// An expression. Children are shared, never copied.
#[derive(Debug, Clone)]
#[allow(inconsistent_fields)]
pub enum Expr {
    Group(Rc<Expr>),
    Literal(LiteralType),
    Variable(Token),
    Binary { left: Rc<Expr>, operator: Token, right: Rc<Expr> },
    Unary { operator: Token, right: Rc<Expr> },
    Call { callee: Rc<Expr>, paren: Token, args: Vec<Rc<Expr>> },
    Assign { name: Token, value: Rc<Expr> },
    Logical { left: Rc<Expr>, operator: Token, right: Rc<Expr> },
}

/// A statement. Children are shared, never copied.
#[derive(Debug, Clone)]
#[allow(inconsistent_fields)]
pub enum Stmt {
    Expression(Rc<Expr>),
    Block(Vec<Rc<Stmt>>),
    VarDecl { name: Token, initializer: Option<Rc<Expr>> },
    While { condition: Option<Rc<Expr>>, body: Rc<Stmt> },
    ForRange { name: Token, range_start: Rc<Expr>, range_end: Rc<Expr>, body: Rc<Stmt> },
    If { condition: Rc<Expr>, then_branch: Rc<Stmt>, else_branch: Option<Rc<Stmt>> },
    FunctionDecl { name: Token, params: Vec<Token>, body: Vec<Rc<Stmt>> },
    Return { keyword: Token, value: Rc<Expr> },
}

/// An expression as a mathematical value: the same tree, with sequences for
/// lists.
#[allow(inconsistent_fields)]
pub enum ExprModel {
    Group(Box<ExprModel>),
    Literal(LiteralType),
    Variable(Token),
    Binary { left: Box<ExprModel>, operator: Token, right: Box<ExprModel> },
    Unary { operator: Token, right: Box<ExprModel> },
    Call { callee: Box<ExprModel>, paren: Token, args: Seq<ExprModel> },
    Assign { name: Token, value: Box<ExprModel> },
    Logical { left: Box<ExprModel>, operator: Token, right: Box<ExprModel> },
}

/// A statement as a mathematical value: the same tree, with sequences for
/// lists.
#[allow(inconsistent_fields)]
pub enum StmtModel {
    Expression(ExprModel),
    Block(Seq<StmtModel>),
    VarDecl { name: Token, initializer: Option<ExprModel> },
    While { condition: Option<ExprModel>, body: Box<StmtModel> },
    ForRange { name: Token, range_start: ExprModel, range_end: ExprModel, body: Box<StmtModel> },
    If { condition: ExprModel, then_branch: Box<StmtModel>, else_branch: Option<Box<StmtModel>> },
    FunctionDecl { name: Token, params: Seq<Token>, body: Seq<StmtModel> },
    Return { keyword: Token, value: ExprModel },
}

/// The expressions of a list as mathematical values.
pub open spec fn expr_models(exprs: Seq<Rc<Expr>>) -> Seq<ExprModel>
    decreases exprs,
{
    Seq::new(
        exprs.len(),
        |i: int|
            if 0 <= i < exprs.len() {
                exprs[i].model()
            } else {
                ExprModel::Literal(LiteralType::Nil)
            },
    )
}

impl Expr {
    /// The expression as a mathematical value.
    pub open spec fn model(&self) -> ExprModel
        decreases self,
    {
        match *self {
            Expr::Group(inner) => ExprModel::Group(Box::new(inner.model())),
            Expr::Literal(value) => ExprModel::Literal(value),
            Expr::Variable(name) => ExprModel::Variable(name),
            Expr::Binary { left, operator, right } => ExprModel::Binary {
                left: Box::new(left.model()),
                operator,
                right: Box::new(right.model()),
            },
            Expr::Unary { operator, right } => ExprModel::Unary {
                operator,
                right: Box::new(right.model()),
            },
            Expr::Call { callee, paren, args } => ExprModel::Call {
                callee: Box::new(callee.model()),
                paren,
                args: expr_models(args@),
            },
            Expr::Assign { name, value } => ExprModel::Assign {
                name,
                value: Box::new(value.model()),
            },
            Expr::Logical { left, operator, right } => ExprModel::Logical {
                left: Box::new(left.model()),
                operator,
                right: Box::new(right.model()),
            },
        }
    }
}

/// The statements of a list as mathematical values.
pub open spec fn models(statements: Seq<Rc<Stmt>>) -> Seq<StmtModel>
    decreases statements,
{
    Seq::new(
        statements.len(),
        |i: int|
            if 0 <= i < statements.len() {
                statements[i].model()
            } else {
                StmtModel::Block(Seq::empty())
            },
    )
}

impl Stmt {
    /// The statement as a mathematical value.
    pub open spec fn model(&self) -> StmtModel
        decreases self,
    {
        match *self {
            Stmt::Expression(expr) => StmtModel::Expression(expr.model()),
            Stmt::Block(statements) => StmtModel::Block(models(statements@)),
            Stmt::VarDecl { name, initializer } => StmtModel::VarDecl {
                name,
                initializer: match initializer {
                    Some(expr) => Some(expr.model()),
                    None => None,
                },
            },
            Stmt::While { condition, body } => StmtModel::While {
                condition: match condition {
                    Some(expr) => Some(expr.model()),
                    None => None,
                },
                body: Box::new(body.model()),
            },
            Stmt::ForRange { name, range_start, range_end, body } => StmtModel::ForRange {
                name,
                range_start: range_start.model(),
                range_end: range_end.model(),
                body: Box::new(body.model()),
            },
            Stmt::If { condition, then_branch, else_branch } => StmtModel::If {
                condition: condition.model(),
                then_branch: Box::new(then_branch.model()),
                else_branch: match else_branch {
                    Some(branch) => Some(Box::new(branch.model())),
                    None => None,
                },
            },
            Stmt::FunctionDecl { name, params, body } => StmtModel::FunctionDecl {
                name,
                params: params@,
                body: models(body@),
            },
            Stmt::Return { keyword, value } => StmtModel::Return { keyword, value: value.model() },
        }
    }
}

/// Whether every expression of a list is plain.
pub open spec fn plain_exprs(exprs: Seq<Rc<Expr>>) -> bool
    decreases exprs,
{
    forall|i: int| 0 <= i < exprs.len() ==> plain_expr(*#[trigger] exprs[i])
}

/// Whether an expression is plain: it holds no function as a literal, so
/// every function that evaluating it gives comes from a declaration.
pub open spec fn plain_expr(expr: Expr) -> bool
    decreases expr,
{
    match expr {
        Expr::Group(inner) => plain_expr(*inner),
        Expr::Literal(value) => !(value is Function),
        Expr::Variable(_) => true,
        Expr::Binary { left, operator, right } => plain_expr(*left) && plain_expr(*right),
        Expr::Unary { operator, right } => plain_expr(*right),
        Expr::Call { callee, paren, args } => plain_expr(*callee) && plain_exprs(args@),
        Expr::Assign { name, value } => plain_expr(*value),
        Expr::Logical { left, operator, right } => plain_expr(*left) && plain_expr(*right),
    }
}

/// Whether every statement of a list is plain.
pub open spec fn plain_stmts(stmts: Seq<Rc<Stmt>>) -> bool
    decreases stmts,
{
    forall|i: int| 0 <= i < stmts.len() ==> plain_stmt(*#[trigger] stmts[i])
}

/// Whether a statement is plain: its expressions and statements are.
pub open spec fn plain_stmt(stmt: Stmt) -> bool
    decreases stmt,
{
    match stmt {
        Stmt::Expression(expr) => plain_expr(*expr),
        Stmt::Block(statements) => plain_stmts(statements@),
        Stmt::VarDecl { name, initializer } => match initializer {
            Some(expr) => plain_expr(*expr),
            None => true,
        },
        Stmt::While { condition, body } => (match condition {
            Some(expr) => plain_expr(*expr),
            None => true,
        }) && plain_stmt(*body),
        Stmt::ForRange { name, range_start, range_end, body } => plain_expr(*range_start)
            && plain_expr(*range_end) && plain_stmt(*body),
        Stmt::If { condition, then_branch, else_branch } => plain_expr(*condition) && plain_stmt(
            *then_branch,
        ) && (match else_branch {
            Some(branch) => plain_stmt(*branch),
            None => true,
        }),
        Stmt::FunctionDecl { name, params, body } => plain_stmts(body@),
        Stmt::Return { keyword, value } => plain_expr(*value),
    }
}

} // verus!
