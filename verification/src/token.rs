use crate::types::LiteralType;
use vstd::prelude::*;

verus! {

/// The kind of a lexical token.
#[derive(Debug, PartialEq, Eq, Clone, Copy, Structural)]
pub enum TokenType {
    LeftParen,
    RightParen,
    LeftBrace,
    RightBrace,
    Comma,
    Dot,
    DotDot,
    Minus,
    MinusEqual,
    Plus,
    PlusEqual,
    Percent,
    PercentEqual,
    Semicolon,
    Slash,
    SlashEqual,
    Star,
    StarEqual,
    Bang,
    BangEqual,
    Equal,
    EqualEqual,
    Greater,
    GreaterEqual,
    Less,
    LessEqual,
    Identifier,
    String,
    Number,
    And,
    Class,
    Else,
    False,
    Fun,
    For,
    If,
    Nil,
    Or,
    Print,
    Return,
    Super,
    This,
    True,
    Var,
    While,
    In,
    EOF,
}

/// A lexical token: its kind, the source text it was read from, the value it
/// denotes when it is a literal, and the line it stands on.
#[derive(Debug)]
pub struct Token {
    pub t_type: TokenType,
    pub lexeme: String,
    pub literal: LiteralType,
    pub line: i32,
}

impl Token {
    pub fn new(t_type: TokenType, lexeme: String, literal: LiteralType, line: i32) -> (token: Token)
        ensures
            token.t_type == t_type,
            token.lexeme == lexeme,
            token.literal == literal,
            token.line == line,
    {
        Token { t_type, lexeme, literal, line }
    }
}

impl Clone for Token {
    fn clone(&self) -> (copy: Token)
        ensures
            copy == *self,
    {
        Token {
            t_type: self.t_type,
            lexeme: self.lexeme.clone(),
            literal: self.literal.clone(),
            line: self.line,
        }
    }
}

/// Whether no token carries a function: a token of a source carries nothing,
/// a number or a text.
pub open spec fn plain_tokens(tokens: Seq<Token>) -> bool {
    forall|i: int| 0 <= i < tokens.len() ==> !((#[trigger] tokens[i]).literal is Function)
}

} // verus!
