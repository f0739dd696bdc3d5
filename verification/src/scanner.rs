pub use crate::error::ScannerError;
use crate::number::{decimal_value, digits_to_single, is_digit, nearest_single};
use crate::text::{owned, push_char, push_text};
use crate::token::{plain_tokens, Token, TokenType};
use crate::types::LiteralType;
use vstd::prelude::*;

verus! {

/// What `char::is_numeric` gives: whether a character is in one of Unicode's
/// categories of numbers.
pub uninterp spec fn numeric(c: char) -> bool;

/// What `char::is_alphabetic` gives: whether a character is alphabetic in
/// Unicode.
pub uninterp spec fn alphabetic(c: char) -> bool;

/// What `char::is_alphanumeric` gives: whether a character is alphabetic or
/// numeric in Unicode.
pub uninterp spec fn alphanumeric(c: char) -> bool;

/// `char::is_numeric`: its answer is a matter of the character alone.
#[verifier::external_body]
fn is_numeric(c: char) -> (found: bool)
    ensures
        found == numeric(c),
{
    c.is_numeric()
}

/// `char::is_alphabetic`: its answer is a matter of the character alone.
#[verifier::external_body]
fn is_alphabetic(c: char) -> (found: bool)
    ensures
        found == alphabetic(c),
{
    c.is_alphabetic()
}

/// `char::is_alphanumeric`: its answer is a matter of the character alone.
#[verifier::external_body]
fn is_alphanumeric(c: char) -> (found: bool)
    ensures
        found == alphanumeric(c),
{
    c.is_alphanumeric()
}

/// `==` on `str`: whether two texts have the same characters.
#[verifier::external_body]
fn same_text(left: &str, right: &str) -> (same: bool)
    ensures
        same == (left@ == right@),
{
    left == right
}

/// What a token carries besides its text: nothing, a number or a text. A
/// scanned token never carries anything else.
pub enum Payload {
    Nil,
    Number(u32),
    Text(Seq<char>),
    Other,
}

/// A token as a mathematical value.
pub struct Lexeme {
    pub kind: TokenType,
    pub text: Seq<char>,
    pub literal: Payload,
    pub line: int,
}

/// What a literal is as the payload of a token.
pub open spec fn payload_of(literal: LiteralType) -> Payload {
    match literal {
        LiteralType::Nil => Payload::Nil,
        LiteralType::Number(bits) => Payload::Number(bits),
        LiteralType::String(text) => Payload::Text(text@),
        _ => Payload::Other,
    }
}

/// The token as a mathematical value.
pub open spec fn lexeme_of(token: Token) -> Lexeme {
    Lexeme {
        kind: token.t_type,
        text: token.lexeme@,
        literal: payload_of(token.literal),
        line: token.line as int,
    }
}

/// The tokens as mathematical values.
pub open spec fn lexemes(tokens: Seq<Token>) -> Seq<Lexeme> {
    tokens.map_values(|token: Token| lexeme_of(token))
}

/// The characters that a run is made of.
#[derive(Clone, Copy)]
pub enum Class {
    /// Numeric characters.
    Digits,
    /// Alphanumeric characters and `_`.
    Word,
    /// Everything up to the end of the line.
    Comment,
    /// Everything up to a double quote.
    Quoted,
}

/// Whether a character belongs to a run of this class.
pub open spec fn within(class: Class, c: char) -> bool {
    match class {
        Class::Digits => numeric(c),
        Class::Word => alphanumeric(c) || c == '_',
        Class::Comment => c != '\n',
        Class::Quoted => c != '"',
    }
}

/// The number of characters from `pos` on that belong to a run of this
/// class, up to the first that does not or the end of the source.
pub open spec fn run(cs: Seq<char>, pos: int, class: Class) -> nat
    decreases cs.len() - pos,
{
    if 0 <= pos < cs.len() && within(class, cs[pos]) {
        1 + run(cs, pos + 1, class)
    } else {
        0
    }
}

/// The number of line breaks among the characters from `from` up to `to`.
pub open spec fn newlines(cs: Seq<char>, from: int, to: int) -> nat
    decreases to - from,
{
    if 0 <= from < to <= cs.len() {
        newlines(cs, from, to - 1) + if cs[to - 1] == '\n' {
            1nat
        } else {
            0nat
        }
    } else {
        0
    }
}

/// The text with every backslash followed by `n` turned into a line break,
/// from the left.
pub open spec fn unescape(text: Seq<char>) -> Seq<char>
    decreases text.len(),
{
    if text.len() == 0 {
        text
    } else if text.len() >= 2 && text[0] == '\\' && text[1] == 'n' {
        seq!['\n'] + unescape(text.skip(2))
    } else {
        seq![text[0]] + unescape(text.skip(1))
    }
}

/// The kind of the token that a word is: a keyword's, or an identifier.
pub open spec fn keyword(word: Seq<char>) -> TokenType {
    if word == "and"@ {
        TokenType::And
    } else if word == "class"@ {
        TokenType::Class
    } else if word == "else"@ {
        TokenType::Else
    } else if word == "true"@ {
        TokenType::True
    } else if word == "false"@ {
        TokenType::False
    } else if word == "for"@ {
        TokenType::For
    } else if word == "while"@ {
        TokenType::While
    } else if word == "fun"@ {
        TokenType::Fun
    } else if word == "if"@ {
        TokenType::If
    } else if word == "nil"@ {
        TokenType::Nil
    } else if word == "or"@ {
        TokenType::Or
    } else if word == "return"@ {
        TokenType::Return
    } else if word == "super"@ {
        TokenType::Super
    } else if word == "this"@ {
        TokenType::This
    } else if word == "var"@ {
        TokenType::Var
    } else if word == "in"@ {
        TokenType::In
    } else {
        TokenType::Identifier
    }
}

/// What is read from one place of the source: a token, nothing that counts,
/// or malformed input. `more` is the number of characters read after the
/// first, and `lines` the number of line breaks among those read.
#[allow(inconsistent_fields)]
pub enum Step {
    Emit { kind: TokenType, literal: Payload, more: nat, lines: nat },
    Skip { more: nat, lines: nat },
    Fault { lines: nat, message: Seq<char> },
}

/// A token without payload, of one or two characters.
pub open spec fn plain(kind: TokenType, more: nat) -> Step {
    Step::Emit { kind, literal: Payload::Nil, more, lines: 0 }
}

/// The token `double` where `second` follows at once, else the token
/// `single`.
pub open spec fn pair(cs: Seq<char>, pos: int, second: char, double: TokenType, single: TokenType) -> Step {
    if pos + 1 < cs.len() && cs[pos + 1] == second {
        plain(double, 1)
    } else {
        plain(single, 0)
    }
}

/// Whether the characters from `from` up to `to` are decimal digits.
pub open spec fn all_digits(cs: Seq<char>, from: int, to: int) -> bool {
    forall|i: int| from <= i < to ==> is_digit(#[trigger] cs[i])
}

/// Whether a character begins an operator, a string or a comment, or is
/// white space.
pub open spec fn punctuation(c: char) -> bool {
    c == '(' || c == ')' || c == '{' || c == '}' || c == ',' || c == '.' || c == ';' || c == '-'
        || c == '+' || c == '*' || c == '%' || c == '/' || c == '!' || c == '=' || c == '<' || c
        == '>' || c == '"' || c == ' ' || c == '\r' || c == '\t' || c == '\n'
}

/// What is read from the source at `pos`, a place before its end.
pub open spec fn step(cs: Seq<char>, pos: int) -> Step {
    let c = cs[pos];
    if c == '(' {
        plain(TokenType::LeftParen, 0)
    } else if c == ')' {
        plain(TokenType::RightParen, 0)
    } else if c == '{' {
        plain(TokenType::LeftBrace, 0)
    } else if c == '}' {
        plain(TokenType::RightBrace, 0)
    } else if c == ',' {
        plain(TokenType::Comma, 0)
    } else if c == '.' {
        pair(cs, pos, '.', TokenType::DotDot, TokenType::Dot)
    } else if c == ';' {
        plain(TokenType::Semicolon, 0)
    } else if c == '-' {
        pair(cs, pos, '=', TokenType::MinusEqual, TokenType::Minus)
    } else if c == '+' {
        pair(cs, pos, '=', TokenType::PlusEqual, TokenType::Plus)
    } else if c == '*' {
        pair(cs, pos, '=', TokenType::StarEqual, TokenType::Star)
    } else if c == '%' {
        pair(cs, pos, '=', TokenType::PercentEqual, TokenType::Percent)
    } else if c == '/' {
        if pos + 1 < cs.len() && cs[pos + 1] == '/' {
            Step::Skip { more: 1 + run(cs, pos + 2, Class::Comment), lines: 0 }
        } else {
            pair(cs, pos, '=', TokenType::SlashEqual, TokenType::Slash)
        }
    } else if c == '!' {
        pair(cs, pos, '=', TokenType::BangEqual, TokenType::Bang)
    } else if c == '=' {
        pair(cs, pos, '=', TokenType::EqualEqual, TokenType::Equal)
    } else if c == '<' {
        pair(cs, pos, '=', TokenType::LessEqual, TokenType::Less)
    } else if c == '>' {
        pair(cs, pos, '=', TokenType::GreaterEqual, TokenType::Greater)
    } else if c == '"' {
        let inside = run(cs, pos + 1, Class::Quoted);
        if pos + 1 + inside >= cs.len() {
            Step::Fault {
                lines: newlines(cs, pos + 1, pos + 1 + inside),
                message: "unterminated string"@,
            }
        } else {
            Step::Emit {
                kind: TokenType::String,
                literal: Payload::Text(unescape(cs.subrange(pos + 1, pos + 1 + inside))),
                more: inside + 1,
                lines: newlines(cs, pos + 1, pos + 1 + inside),
            }
        }
    } else if c == ' ' || c == '\r' || c == '\t' {
        Step::Skip { more: 0, lines: 0 }
    } else if c == '\n' {
        Step::Skip { more: 0, lines: 1 }
    } else if numeric(c) {
        let more = run(cs, pos + 1, Class::Digits);
        if all_digits(cs, pos, pos + 1 + more) {
            Step::Emit {
                kind: TokenType::Number,
                literal: Payload::Number(
                    nearest_single(decimal_value(cs.subrange(pos, pos + 1 + more))),
                ),
                more,
                lines: 0,
            }
        } else {
            Step::Fault { lines: 0, message: "cannot parse number"@ }
        }
    } else if alphabetic(c) {
        let more = run(cs, pos + 1, Class::Word);
        plain(keyword(cs.subrange(pos, pos + 1 + more)), more)
    } else {
        Step::Fault { lines: 0, message: "unexpected character '"@ + seq![c] + "'"@ }
    }
}

/// What scanning gives: the tokens, or the first malformed input with its
/// line.
pub enum Scanned {
    Done(Seq<Lexeme>),
    Fault { line: int, message: Seq<char> },
}

/// The tokens of the source from `pos` on, after those in `before`, with
/// `line` the line that `pos` is on. The token that ends the sequence stands
/// for the end of input and has no text.
pub open spec fn scan_rest(cs: Seq<char>, pos: int, line: int, before: Seq<Lexeme>) -> Scanned
    decreases
            (if pos <= cs.len() {
                cs.len() - pos
            } else {
                0
            }),
{
    if pos < 0 || pos >= cs.len() {
        Scanned::Done(
            before.push(
                Lexeme { kind: TokenType::EOF, text: Seq::empty(), literal: Payload::Nil, line },
            ),
        )
    } else {
        match step(cs, pos) {
            Step::Emit { kind, literal, more, lines } => scan_rest(
                cs,
                pos + 1 + more,
                line + lines,
                before.push(
                    Lexeme {
                        kind,
                        text: cs.subrange(pos, pos + 1 + more),
                        literal,
                        line: line + lines,
                    },
                ),
            ),
            Step::Skip { more, lines } => scan_rest(cs, pos + 1 + more, line + lines, before),
            Step::Fault { lines, message } => Scanned::Fault { line: line + lines, message },
        }
    }
}

/// The tokens of a source, whose first line is line 1.
pub open spec fn scanned(cs: Seq<char>) -> Scanned {
    scan_rest(cs, 0, 1, Seq::empty())
}

/// There are never more line breaks than characters.
pub proof fn lemma_newlines_bounded(cs: Seq<char>, from: int, to: int)
    ensures
        newlines(cs, from, to) <= to - from || newlines(cs, from, to) == 0,
    decreases to - from,
{
    if 0 <= from < to <= cs.len() {
        lemma_newlines_bounded(cs, from, to - 1);
    }
}

/// A scanner over the characters of a source text.
pub struct Scanner {
    pub source: Vec<char>,
    pub tokens: Vec<Token>,
    pub start: usize,
    pub current: usize,
    pub line: i32,
}

impl Scanner {
    /// The place of the scanner is in the source, its line number is at most
    /// one more than the characters read, which fits, and no token carries a
    /// function.
    pub open spec fn wf(&self) -> bool {
        &&& self.start <= self.current <= self.source.len()
        &&& self.source.len() < i32::MAX
        &&& 1 <= self.line <= self.current + 1
        &&& plain_tokens(self.tokens@)
    }

    /// Whether the scanner has gone on from `before` by what is read there.
    pub open spec fn advanced(&self, before: Scanner, result: Result<(), ScannerError>) -> bool {
        let cs = before.source@;
        let pos = before.current as int;
        &&& self.source == before.source
        &&& match step(cs, pos) {
            Step::Emit { kind, literal, more, lines } => {
                &&& result is Ok
                &&& self.wf()
                &&& self.current == pos + 1 + more
                &&& self.line == before.line + lines
                &&& lexemes(self.tokens@) == lexemes(before.tokens@).push(
                    Lexeme {
                        kind,
                        text: cs.subrange(pos, pos + 1 + more),
                        literal,
                        line: before.line + lines,
                    },
                )
            },
            Step::Skip { more, lines } => {
                &&& result is Ok
                &&& self.wf()
                &&& self.current == pos + 1 + more
                &&& self.line == before.line + lines
                &&& self.tokens == before.tokens
            },
            Step::Fault { lines, message } => {
                &&& result is Err
                &&& result->Err_0.line == before.line + lines
                &&& result->Err_0.message@ == message
            },
        }
    }

    /// A scanner at the start of `source`.
    pub fn new(source: String) -> (scanner: Scanner)
        requires
            source@.len() < i32::MAX,
        ensures
            scanner.wf(),
            scanner.source@ == source@,
            scanner.tokens@.len() == 0,
            scanner.current == 0,
            scanner.line == 1,
    {
        let mut chars: Vec<char> = Vec::new();
        for c in iter: source.as_str().chars()
            invariant
                chars@ == iter.seq().take(iter.index@),
        {
            chars.push(c);
        }
        Scanner { source: chars, tokens: Vec::new(), start: 0, current: 0, line: 1 }
    }

    fn is_at_end(&self) -> (ended: bool)
        ensures
            ended == (self.current >= self.source@.len()),
    {
        self.current >= self.source.len()
    }

    /// The text of the source from `from` up to `to`.
    fn text(&self, from: usize, to: usize) -> (text: String)
        requires
            from <= to <= self.source@.len(),
        ensures
            text@ == self.source@.subrange(from as int, to as int),
    {
        let mut text = String::new();
        let mut at = from;
        assert(self.source@.subrange(from as int, from as int) =~= Seq::empty());
        while at < to
            invariant
                from <= at <= to <= self.source@.len(),
                text@ == self.source@.subrange(from as int, at as int),
            decreases to - at,
        {
            push_char(&mut text, self.source[at]);
            assert(self.source@.subrange(from as int, at + 1) =~= self.source@.subrange(
                from as int,
                at as int,
            ).push(self.source@[at as int]));
            at = at + 1;
        }
        text
    }

    /// The text of the source from `from` up to `to`, unescaped.
    fn unescaped(&self, from: usize, to: usize) -> (text: String)
        requires
            from <= to <= self.source@.len(),
        ensures
            text@ == unescape(self.source@.subrange(from as int, to as int)),
    {
        let ghost cs = self.source@;
        let mut text = String::new();
        let mut at = from;
        assert(Seq::<char>::empty() + unescape(cs.subrange(from as int, to as int)) =~= unescape(
            cs.subrange(from as int, to as int),
        ));
        while at < to
            invariant
                from <= at <= to <= self.source@.len(),
                cs == self.source@,
                text@ + unescape(cs.subrange(at as int, to as int)) == unescape(
                    cs.subrange(from as int, to as int),
                ),
            decreases to - at,
        {
            let ghost rest = cs.subrange(at as int, to as int);
            let ghost so_far = text@;
            if self.source[at] == '\\' && at + 1 < to && self.source[at + 1] == 'n' {
                assert(rest.skip(2) =~= cs.subrange(at + 2, to as int));
                push_char(&mut text, '\n');
                assert(text@ + unescape(cs.subrange(at + 2, to as int)) =~= so_far + unescape(
                    rest,
                ));
                at = at + 2;
            } else {
                assert(rest.skip(1) =~= cs.subrange(at + 1, to as int));
                push_char(&mut text, self.source[at]);
                assert(text@ + unescape(cs.subrange(at + 1, to as int)) =~= so_far + unescape(
                    rest,
                ));
                at = at + 1;
            }
        }
        assert(cs.subrange(to as int, to as int) =~= Seq::empty());
        assert(text@ + Seq::<char>::empty() =~= text@);
        text
    }

    fn belongs(class: Class, c: char) -> (found: bool)
        ensures
            found == within(class, c),
    {
        match class {
            Class::Digits => is_numeric(c),
            Class::Word => is_alphanumeric(c) || c == '_',
            Class::Comment => c != '\n',
            Class::Quoted => c != '"',
        }
    }

    /// Goes past the run of this class that begins at the scanner's place,
    /// and counts its line breaks.
    fn skip_run(&mut self, class: Class)
        requires
            old(self).wf(),
        ensures
            final(self).source == old(self).source,
            final(self).tokens == old(self).tokens,
            final(self).start == old(self).start,
            final(self).wf(),
            final(self).current == old(self).current + run(
                old(self).source@,
                old(self).current as int,
                class,
            ),
            final(self).line == old(self).line + newlines(
                old(self).source@,
                old(self).current as int,
                final(self).current as int,
            ),
    {
        let ghost cs = self.source@;
        let ghost from = self.current as int;
        while self.current < self.source.len() && Self::belongs(class, self.source[self.current])
            invariant
                self.source == old(self).source,
                self.tokens == old(self).tokens,
                self.start == old(self).start,
                cs == self.source@,
                from == old(self).current,
                from <= self.current,
                self.wf(),
                run(cs, from, class) == (self.current - from) + run(cs, self.current as int, class),
                self.line == old(self).line + newlines(cs, from, self.current as int),
            decreases self.source@.len() - self.current,
        {
            if self.source[self.current] == '\n' {
                self.line = self.line + 1;
            }
            self.current = self.current + 1;
            proof {
                lemma_newlines_bounded(cs, from, self.current as int);
            }
        }
    }

    /// Puts the token of this kind that was read from `start` up to the
    /// scanner's place at the end of the tokens.
    fn add_token(&mut self, t_type: TokenType, literal: LiteralType)
        requires
            old(self).wf(),
            !(literal is Function),
        ensures
            final(self).source == old(self).source,
            final(self).start == old(self).start,
            final(self).current == old(self).current,
            final(self).line == old(self).line,
            final(self).wf(),
            lexemes(final(self).tokens@) == lexemes(old(self).tokens@).push(
                Lexeme {
                    kind: t_type,
                    text: old(self).source@.subrange(
                        old(self).start as int,
                        old(self).current as int,
                    ),
                    literal: payload_of(literal),
                    line: old(self).line as int,
                },
            ),
    {
        let text = self.text(self.start, self.current);
        let token = Token::new(t_type, text, literal, self.line);
        self.tokens.push(token);
        assert(lexemes(self.tokens@) =~= lexemes(old(self).tokens@).push(lexeme_of(token)));
    }

    /// Reads the token `double` where `second` follows at once, else the
    /// token `single`; the first character has been read.
    fn scan_pair(&mut self, second: char, double: TokenType, single: TokenType)
        requires
            old(self).wf(),
            old(self).start + 1 == old(self).current,
        ensures
            final(self).source == old(self).source,
            final(self).wf(),
            final(self).line == old(self).line,
            pair(old(self).source@, old(self).start as int, second, double, single) matches Step::Emit {
                kind,
                literal,
                more,
                lines,
            } && final(self).current == old(self).current + more && lexemes(final(self).tokens@)
                == lexemes(old(self).tokens@).push(
                Lexeme {
                    kind,
                    text: old(self).source@.subrange(
                        old(self).start as int,
                        old(self).current + more,
                    ),
                    literal: Payload::Nil,
                    line: old(self).line as int,
                },
            ),
    {
        if self.match_char(second) {
            self.add_token(double, LiteralType::Nil);
        } else {
            self.add_token(single, LiteralType::Nil);
        }
    }

    fn match_char(&mut self, expected: char) -> (found: bool)
        requires
            old(self).wf(),
        ensures
            final(self).source == old(self).source,
            final(self).tokens == old(self).tokens,
            final(self).start == old(self).start,
            final(self).line == old(self).line,
            final(self).wf(),
            found == (old(self).current < old(self).source@.len() && old(self).source@[old(
                self,
            ).current as int] == expected),
            final(self).current == old(self).current + if found {
                1int
            } else {
                0int
            },
    {
        if self.is_at_end() || self.source[self.current] != expected {
            false
        } else {
            self.current = self.current + 1;
            true
        }
    }

    /// Whether the characters from `from` up to `to` are decimal digits.
    fn only_digits(&self, from: usize, to: usize) -> (found: bool)
        requires
            from <= to <= self.source@.len(),
        ensures
            found == all_digits(self.source@, from as int, to as int),
    {
        let mut at = from;
        while at < to
            invariant
                from <= at <= to <= self.source@.len(),
                all_digits(self.source@, from as int, at as int),
            decreases to - at,
        {
            let c = self.source[at];
            if !('0' <= c && c <= '9') {
                assert(!is_digit(self.source@[at as int]));
                return false;
            }
            at = at + 1;
        }
        true
    }

    /// The kind of the token that a word is.
    fn match_keyword(name: &str) -> (kind: TokenType)
        ensures
            kind == keyword(name@),
    {
        if same_text(name, "and") {
            TokenType::And
        } else if same_text(name, "class") {
            TokenType::Class
        } else if same_text(name, "else") {
            TokenType::Else
        } else if same_text(name, "true") {
            TokenType::True
        } else if same_text(name, "false") {
            TokenType::False
        } else if same_text(name, "for") {
            TokenType::For
        } else if same_text(name, "while") {
            TokenType::While
        } else if same_text(name, "fun") {
            TokenType::Fun
        } else if same_text(name, "if") {
            TokenType::If
        } else if same_text(name, "nil") {
            TokenType::Nil
        } else if same_text(name, "or") {
            TokenType::Or
        } else if same_text(name, "return") {
            TokenType::Return
        } else if same_text(name, "super") {
            TokenType::Super
        } else if same_text(name, "this") {
            TokenType::This
        } else if same_text(name, "var") {
            TokenType::Var
        } else if same_text(name, "in") {
            TokenType::In
        } else {
            TokenType::Identifier
        }
    }

    /// Reads a string; its opening quote has been read.
    fn scan_string(&mut self) -> (result: Result<(), ScannerError>)
        requires
            old(self).wf(),
            old(self).start + 1 == old(self).current,
            old(self).source@[old(self).start as int] == '"',
        ensures
            final(self).advanced(
                Scanner { current: old(self).start, ..*old(self) },
                result,
            ),
    {
        let ghost cs = self.source@;
        self.skip_run(Class::Quoted);
        if self.is_at_end() {
            return Err(ScannerError::new(self.line, owned("unterminated string")));
        }
        let inside = self.current;
        self.current = self.current + 1;
        proof {
            lemma_newlines_bounded(cs, self.start + 1, inside as int);
        }
        let text = self.unescaped(self.start + 1, inside);
        self.add_token(TokenType::String, LiteralType::String(text));
        Ok(())
    }

    /// Reads a number; its first character has been read.
    fn scan_number(&mut self) -> (result: Result<(), ScannerError>)
        requires
            old(self).wf(),
            old(self).start + 1 == old(self).current,
            numeric(old(self).source@[old(self).start as int]),
            !punctuation(old(self).source@[old(self).start as int]),
        ensures
            final(self).advanced(
                Scanner { current: old(self).start, ..*old(self) },
                result,
            ),
    {
        let ghost cs = self.source@;
        let ghost first = self.current as int;
        let ghost line = self.line;
        while self.current < self.source.len() && is_numeric(self.source[self.current])
            invariant
                self.source == old(self).source,
                self.tokens == old(self).tokens,
                self.start == old(self).start,
                self.line == old(self).line,
                cs == self.source@,
                first == old(self).current,
                first <= self.current <= self.source@.len(),
                self.wf(),
                run(cs, first, Class::Digits) == (self.current - first) + run(
                    cs,
                    self.current as int,
                    Class::Digits,
                ),
            decreases self.source@.len() - self.current,
        {
            self.current = self.current + 1;
        }
        if !self.only_digits(self.start, self.current) {
            return Err(ScannerError::new(self.line, owned("cannot parse number")));
        }
        let bits = digits_to_single(&self.source, self.start, self.current);
        self.add_token(TokenType::Number, LiteralType::Number(bits));
        Ok(())
    }

    /// Reads a word; its first character has been read.
    fn scan_identifier(&mut self)
        requires
            old(self).wf(),
            old(self).start + 1 == old(self).current,
        ensures
            final(self).source == old(self).source,
            final(self).wf(),
            final(self).line == old(self).line,
            final(self).current == old(self).current + run(
                old(self).source@,
                old(self).current as int,
                Class::Word,
            ),
            lexemes(final(self).tokens@) == lexemes(old(self).tokens@).push(
                Lexeme {
                    kind: keyword(
                        old(self).source@.subrange(
                            old(self).start as int,
                            final(self).current as int,
                        ),
                    ),
                    text: old(self).source@.subrange(
                        old(self).start as int,
                        final(self).current as int,
                    ),
                    literal: Payload::Nil,
                    line: old(self).line as int,
                },
            ),
    {
        let ghost cs = self.source@;
        let ghost first = self.current as int;
        while self.current < self.source.len() && (is_alphanumeric(self.source[self.current])
            || self.source[self.current] == '_')
            invariant
                self.source == old(self).source,
                self.tokens == old(self).tokens,
                self.start == old(self).start,
                self.line == old(self).line,
                cs == self.source@,
                first == old(self).current,
                first <= self.current <= self.source@.len(),
                self.wf(),
                run(cs, first, Class::Word) == (self.current - first) + run(
                    cs,
                    self.current as int,
                    Class::Word,
                ),
            decreases self.source@.len() - self.current,
        {
            self.current = self.current + 1;
        }
        let text = self.text(self.start, self.current);
        let kind = Self::match_keyword(text.as_str());
        self.add_token(kind, LiteralType::Nil);
    }

    /// The fault of a character that begins no token.
    fn unexpected(line: i32, c: char) -> (error: ScannerError)
        ensures
            error.line == line,
            error.message@ == "unexpected character '"@ + seq![c] + "'"@,
    {
        let mut message = owned("unexpected character '");
        push_char(&mut message, c);
        push_text(&mut message, "'");
        assert(message@ =~= "unexpected character '"@ + seq![c] + "'"@);
        ScannerError::new(line, message)
    }

    /// Reads what stands at the scanner's place, which is before the end of
    /// the source.
    #[verifier::spinoff_prover]
    fn scan_token(&mut self) -> (result: Result<(), ScannerError>)
        requires
            old(self).wf(),
            old(self).current < old(self).source@.len(),
        ensures
            final(self).advanced(*old(self), result),
    {
        let ghost cs = self.source@;
        let ghost pos = self.current as int;
        self.start = self.current;
        let c = self.source[self.current];
        self.current = self.current + 1;
        assert(cs.subrange(pos, pos + 1).len() == 1);
        if c == '(' {
            self.add_token(TokenType::LeftParen, LiteralType::Nil);
        } else if c == ')' {
            self.add_token(TokenType::RightParen, LiteralType::Nil);
        } else if c == '{' {
            self.add_token(TokenType::LeftBrace, LiteralType::Nil);
        } else if c == '}' {
            self.add_token(TokenType::RightBrace, LiteralType::Nil);
        } else if c == ',' {
            self.add_token(TokenType::Comma, LiteralType::Nil);
        } else if c == '.' {
            self.scan_pair('.', TokenType::DotDot, TokenType::Dot);
        } else if c == ';' {
            self.add_token(TokenType::Semicolon, LiteralType::Nil);
        } else if c == '-' {
            self.scan_pair('=', TokenType::MinusEqual, TokenType::Minus);
        } else if c == '+' {
            self.scan_pair('=', TokenType::PlusEqual, TokenType::Plus);
        } else if c == '*' {
            self.scan_pair('=', TokenType::StarEqual, TokenType::Star);
        } else if c == '%' {
            self.scan_pair('=', TokenType::PercentEqual, TokenType::Percent);
        } else if c == '/' {
            if self.match_char('/') {
                let ghost line = self.line;
                while self.current < self.source.len() && self.source[self.current] != '\n'
                    invariant
                        self.source == old(self).source,
                        self.tokens == old(self).tokens,
                        self.line == old(self).line,
                        cs == self.source@,
                        pos + 2 <= self.current <= self.source@.len(),
                        self.start == pos,
                        self.wf(),
                        run(cs, pos + 2, Class::Comment) == (self.current - (pos + 2)) + run(
                            cs,
                            self.current as int,
                            Class::Comment,
                        ),
                    decreases self.source@.len() - self.current,
                {
                    self.current = self.current + 1;
                }
            } else {
                self.scan_pair('=', TokenType::SlashEqual, TokenType::Slash);
            }
        } else if c == '!' {
            self.scan_pair('=', TokenType::BangEqual, TokenType::Bang);
        } else if c == '=' {
            self.scan_pair('=', TokenType::EqualEqual, TokenType::Equal);
        } else if c == '<' {
            self.scan_pair('=', TokenType::LessEqual, TokenType::Less);
        } else if c == '>' {
            self.scan_pair('=', TokenType::GreaterEqual, TokenType::Greater);
        } else if c == '"' {
            return self.scan_string();
        } else if c == ' ' || c == '\r' || c == '\t' {
        } else if c == '\n' {
            self.line = self.line + 1;
        } else if is_numeric(c) {
            return self.scan_number();
        } else if is_alphabetic(c) {
            self.scan_identifier();
        } else {
            return Err(Self::unexpected(self.line, c));
        }
        Ok(())
    }

    /// Reads the whole source into tokens, the last of which stands for the
    /// end of input, or gives the first malformed input.
    pub fn scan_tokens(&mut self) -> (result: Result<Vec<Token>, ScannerError>)
        requires
            old(self).wf(),
            old(self).current == 0,
            old(self).line == 1,
            old(self).tokens@.len() == 0,
        ensures
            final(self).source == old(self).source,
            match scanned(old(self).source@) {
                Scanned::Done(all) => result is Ok && lexemes(result->Ok_0@) == all
                    && result->Ok_0@.len() > 0 && result->Ok_0@.last().t_type == TokenType::EOF
                    && plain_tokens(result->Ok_0@),
                Scanned::Fault { line, message } => result is Err && result->Err_0.line == line
                    && result->Err_0.message@ == message,
            },
    {
        let ghost cs = self.source@;
        assert(lexemes(self.tokens@) =~= Seq::empty());
        while !self.is_at_end()
            invariant
                self.source == old(self).source,
                cs == self.source@,
                self.wf(),
                scanned(cs) == scan_rest(
                    cs,
                    self.current as int,
                    self.line as int,
                    lexemes(self.tokens@),
                ),
            decreases self.source@.len() - self.current,
        {
            match self.scan_token() {
                Ok(()) => {},
                Err(error) => {
                    return Err(error);
                },
            }
        }
        self.start = self.current;
        self.add_token(TokenType::EOF, LiteralType::Nil);
        assert(cs.subrange(self.current as int, self.current as int) =~= Seq::empty());
        let mut tokens: Vec<Token> = Vec::new();
        std::mem::swap(&mut self.tokens, &mut tokens);
        assert(lexemes(tokens@).last() == lexeme_of(tokens@.last()));
        Ok(tokens)
    }
}

} // verus!
