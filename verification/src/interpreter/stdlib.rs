use crate::interpreter::host::Request;
use crate::interpreter::machine::{fits, Control, Frame, Kind, Machine, Next, Outcome};
use crate::interpreter::Interpreter;
use crate::text::{drop_last_char, owned};
use crate::token::Token;
use crate::types::{display, LiteralType, NativeKind};
use vstd::prelude::*;

verus! {

/// The name that a native function is bound to in the global scope.
pub open spec fn native_name(kind: NativeKind) -> Seq<char> {
    match kind {
        NativeKind::Print => "print"@,
        NativeKind::PrintLn => "println"@,
        NativeKind::Input => "input"@,
        NativeKind::InputPrompt => "input_prompt"@,
        NativeKind::Int => "int"@,
        NativeKind::Str => "str"@,
    }
}

/// The number of arguments that a native function takes.
pub open spec fn native_arity(kind: NativeKind) -> usize {
    match kind {
        NativeKind::Input => 0,
        _ => 1,
    }
}

/// Whether `value` is the native function of this kind.
pub open spec fn is_native(value: LiteralType, kind: NativeKind) -> bool {
    value matches LiteralType::NativeFunction { name, arity, func } && name@ == native_name(kind)
        && arity == native_arity(kind) && func == kind
}

/// A native function: the name it is bound to and the value that stands for
/// it.
pub trait StdLibFunc {
    /// Which native function this is.
    spec fn kind() -> NativeKind;

    /// The name that the function is bound to in the global scope.
    fn name() -> (name: String)
        ensures
            name@ == native_name(Self::kind()),
    ;

    /// The value that stands for the function.
    fn function() -> (function: LiteralType)
        ensures
            is_native(function, Self::kind()),
    ;
}

/// `print(x)` writes the text form of `x`.
pub struct Print;

/// `println(x)` writes the text form of `x` and a line break.
pub struct PrintLn;

/// `input()` reads one line, with its line break.
pub struct Input;

/// `input_prompt(s)` writes `s`, then reads one line and cuts its line break
/// off.
pub struct InputPrompt;

/// `int(x)` is the integer part of a number, or of the number that a string
/// denotes.
pub struct Int;

/// `str(x)` is the text form of a number or a string.
pub struct Str;

impl StdLibFunc for Print {
    open spec fn kind() -> NativeKind {
        NativeKind::Print
    }

    fn name() -> (name: String) {
        owned("print")
    }

    fn function() -> (function: LiteralType) {
        LiteralType::NativeFunction { name: owned("print"), arity: 1, func: NativeKind::Print }
    }
}

impl StdLibFunc for PrintLn {
    open spec fn kind() -> NativeKind {
        NativeKind::PrintLn
    }

    fn name() -> (name: String) {
        owned("println")
    }

    fn function() -> (function: LiteralType) {
        LiteralType::NativeFunction { name: owned("println"), arity: 1, func: NativeKind::PrintLn }
    }
}

impl StdLibFunc for Input {
    open spec fn kind() -> NativeKind {
        NativeKind::Input
    }

    fn name() -> (name: String) {
        owned("input")
    }

    fn function() -> (function: LiteralType) {
        LiteralType::NativeFunction { name: owned("input"), arity: 0, func: NativeKind::Input }
    }
}

impl StdLibFunc for InputPrompt {
    open spec fn kind() -> NativeKind {
        NativeKind::InputPrompt
    }

    fn name() -> (name: String) {
        owned("input_prompt")
    }

    fn function() -> (function: LiteralType) {
        LiteralType::NativeFunction {
            name: owned("input_prompt"),
            arity: 1,
            func: NativeKind::InputPrompt,
        }
    }
}

impl StdLibFunc for Int {
    open spec fn kind() -> NativeKind {
        NativeKind::Int
    }

    fn name() -> (name: String) {
        owned("int")
    }

    fn function() -> (function: LiteralType) {
        LiteralType::NativeFunction { name: owned("int"), arity: 1, func: NativeKind::Int }
    }
}

impl StdLibFunc for Str {
    open spec fn kind() -> NativeKind {
        NativeKind::Str
    }

    fn name() -> (name: String) {
        owned("str")
    }

    fn function() -> (function: LiteralType) {
        LiteralType::NativeFunction { name: owned("str"), arity: 1, func: NativeKind::Str }
    }
}

/// The argument that a native function works on: the first, or nil where
/// there is none.
pub open spec fn first_argument(args: Seq<LiteralType>) -> LiteralType {
    if args.len() > 0 {
        args[0]
    } else {
        LiteralType::Nil
    }
}

/// Writing a value: the text of a number is asked of the host first, the text
/// of any other value is written as it is.
pub open spec fn printing(m: Machine, value: LiteralType, newline: bool) -> Outcome {
    match value {
        LiteralType::Number(bits) => m.pushed(Frame::Write { newline }).goes(
            Control::Awaiting(Request::Format { number: bits }),
        ),
        _ => m.leads(Next::Write { text: display(value), newline }),
    }
}

/// A call of a native function.
pub open spec fn native(m: Machine, paren: Token, kind: NativeKind, args: Seq<LiteralType>) -> Outcome {
    match kind {
        NativeKind::Print => printing(m, first_argument(args), false),
        NativeKind::PrintLn => printing(m, first_argument(args), true),
        NativeKind::Input => m.goes(Control::Awaiting(Request::ReadLine)),
        NativeKind::InputPrompt => match first_argument(args) {
            LiteralType::String(prompt) => m.pushed(Frame::Prompt).leads(
                Next::Write { text: prompt@, newline: false },
            ),
            _ => m.fails(paren, "expected a string"@),
        },
        NativeKind::Int => match first_argument(args) {
            LiteralType::Number(bits) => m.pushed(Frame::IntTruncated).goes(
                Control::Awaiting(Request::Truncate { number: bits }),
            ),
            LiteralType::String(text) => m.pushed(Frame::IntParsed { paren }).goes(
                Control::Awaiting(Request::Parse { text }),
            ),
            _ => m.fails(paren, "cannot cast to int"@),
        },
        NativeKind::Str => match first_argument(args) {
            LiteralType::Number(bits) => m.goes(
                Control::Awaiting(Request::Format { number: bits }),
            ),
            LiteralType::String(text) => m.goes(Control::Value(LiteralType::String(text))),
            _ => m.fails(paren, "cannot cast to string"@),
        },
    }
}

/// `print` once the text of its number is known: the text is written.
pub open spec fn text_known(m: Machine, newline: bool, value: LiteralType) -> Outcome {
    match value {
        LiteralType::String(text) => m.goes(Control::Awaiting(Request::Write { text, newline })),
        _ => m.goes(Control::Value(LiteralType::Nil)),
    }
}

/// `input_prompt` once its prompt is written: a line is read.
pub open spec fn prompt_written(m: Machine) -> Outcome {
    m.pushed(Frame::Strip).goes(Control::Awaiting(Request::ReadLine))
}

/// `input_prompt` once its line is read: the line without its last character.
pub open spec fn line_read(m: Machine, value: LiteralType) -> Outcome {
    match value {
        LiteralType::String(line) => m.leads(
            Next::Text(
                if line@.len() > 0 {
                    line@.drop_last()
                } else {
                    line@
                },
            ),
        ),
        _ => m.goes(Control::Value(value)),
    }
}

/// `int` once the host has parsed its text: the number is cut to an integer,
/// and text that denotes no number fails the run.
pub open spec fn number_parsed(m: Machine, paren: Token, parsed: Option<u32>) -> Outcome {
    match parsed {
        Some(bits) => m.pushed(Frame::IntTruncated).goes(
            Control::Awaiting(Request::Truncate { number: bits }),
        ),
        None => m.fails(paren, "cannot cast to int"@),
    }
}

/// `int` once its number is cut to an integer: the number of that integer.
pub open spec fn number_truncated(m: Machine, integer: i32) -> Outcome {
    m.goes(Control::Awaiting(Request::FromInteger { integer }))
}

impl Interpreter {
    /// Writes a value.
    pub fn print_value(&mut self, value: LiteralType, newline: bool)
        requires
            old(self)@.wf(),
            fits(old(self).frames@, Some(Kind::Value)),
        ensures
            final(self).lands(printing(old(self)@, value, newline)),
            final(self).wf(),
    {
        match value.text() {
            Some(text) => {
                self.control = Control::Awaiting(Request::Write { text, newline });
            },
            None => {
                match value {
                    LiteralType::Number(bits) => {
                        self.push(Frame::Write { newline });
                        self.control = Control::Awaiting(Request::Format { number: bits });
                    },
                    _ => {},
                }
            },
        }
    }

    /// Begins a call of a native function.
    pub fn call_native(&mut self, kind: NativeKind, paren: &Token, args: Vec<LiteralType>)
        requires
            old(self)@.wf(),
            fits(old(self).frames@, Some(Kind::Value)),
        ensures
            final(self).lands(native(old(self)@, *paren, kind, args@)),
            final(self).wf(),
    {
        let first = if args.len() > 0 {
            args[0].clone()
        } else {
            LiteralType::Nil
        };
        match kind {
            NativeKind::Print => self.print_value(first, false),
            NativeKind::PrintLn => self.print_value(first, true),
            NativeKind::Input => {
                self.control = Control::Awaiting(Request::ReadLine);
            },
            NativeKind::InputPrompt => match first {
                LiteralType::String(prompt) => {
                    self.push(Frame::Prompt);
                    self.control = Control::Awaiting(
                        Request::Write { text: prompt, newline: false },
                    );
                },
                _ => self.fail(paren.clone(), "expected a string"),
            },
            NativeKind::Int => match first {
                LiteralType::Number(bits) => {
                    self.push(Frame::IntTruncated);
                    self.control = Control::Awaiting(Request::Truncate { number: bits });
                },
                LiteralType::String(text) => {
                    self.push(Frame::IntParsed { paren: paren.clone() });
                    self.control = Control::Awaiting(Request::Parse { text });
                },
                _ => self.fail(paren.clone(), "cannot cast to int"),
            },
            NativeKind::Str => match first {
                LiteralType::Number(bits) => {
                    self.control = Control::Awaiting(Request::Format { number: bits });
                },
                LiteralType::String(text) => {
                    self.control = Control::Value(LiteralType::String(text));
                },
                _ => self.fail(paren.clone(), "cannot cast to string"),
            },
        }
    }

    /// Writes the text of a number once the host has given it.
    pub fn write_text(&mut self, newline: bool, value: LiteralType)
        requires
            old(self)@.wf(),
            fits(old(self).frames@, Some(Kind::Value)),
        ensures
            final(self).lands(text_known(old(self)@, newline, value)),
            final(self).wf(),
    {
        match value {
            LiteralType::String(text) => {
                self.control = Control::Awaiting(Request::Write { text, newline });
            },
            _ => {
                self.control = Control::Value(LiteralType::Nil);
            },
        }
    }

    /// Reads the line of `input_prompt` once the prompt is written.
    pub fn read_after_prompt(&mut self)
        requires
            old(self)@.wf(),
            fits(old(self).frames@, Some(Kind::Value)),
        ensures
            final(self).lands(prompt_written(old(self)@)),
            final(self).wf(),
    {
        self.push(Frame::Strip);
        self.control = Control::Awaiting(Request::ReadLine);
    }

    /// Cuts the last character off the line that `input_prompt` has read.
    pub fn strip_line(&mut self, value: LiteralType)
        requires
            old(self)@.wf(),
            fits(old(self).frames@, Some(Kind::Value)),
        ensures
            final(self).lands(line_read(old(self)@, value)),
            final(self).wf(),
    {
        match value {
            LiteralType::String(line) => {
                let mut line = line;
                drop_last_char(&mut line);
                self.control = Control::Value(LiteralType::String(line));
            },
            _ => {
                self.control = Control::Value(value);
            },
        }
    }

    /// Goes on with `int` once the host has parsed its text.
    pub fn truncate_parsed(&mut self, paren: Token, parsed: Option<u32>)
        requires
            old(self)@.wf(),
            fits(old(self).frames@, Some(Kind::Value)),
        ensures
            final(self).lands(number_parsed(old(self)@, paren, parsed)),
            final(self).wf(),
    {
        match parsed {
            Some(bits) => {
                self.push(Frame::IntTruncated);
                self.control = Control::Awaiting(Request::Truncate { number: bits });
            },
            None => {
                self.fail(paren, "cannot cast to int");
            },
        }
    }
}

} // verus!
