use std::rc::Rc;
use wind::ast::{Expr, Stmt};
use wind::interpreter::host::{Action, ArithmeticOp, ComparisonOp, Event, Request};
use wind::interpreter::machine::Control;
use wind::interpreter::stdlib::{Input, InputPrompt, Int, Print, PrintLn, StdLibFunc, Str};
use wind::interpreter::Interpreter;
use wind::parser::Parser;
use wind::scanner::Scanner;
use wind::token::{Token, TokenType};
use wind::types::{LiteralType, NativeKind};

fn load(source: &str) -> Interpreter {
    let tokens = Scanner::new(source.to_string()).scan_tokens().expect("the source should scan");
    let statements = Parser::new(tokens).parse().expect("the source should parse");
    let mut interpreter = Interpreter::new();
    interpreter.interpret(statements);
    interpreter
}

/// Steps until the host is asked for something.
fn until_asked(interpreter: &mut Interpreter, first: Event) -> Action {
    let mut event = first;
    loop {
        match interpreter.step(event) {
            Action::Continue => event = Event::Resume,
            other => return other,
        }
    }
}

fn name(text: &str) -> Token {
    Token::new(TokenType::Identifier, text.to_string(), LiteralType::Nil, 1)
}

#[test]
fn a_new_interpreter_binds_the_native_functions() {
    let interpreter = Interpreter::new();
    for (text, arity, kind) in [
        ("print", 1, NativeKind::Print),
        ("println", 1, NativeKind::PrintLn),
        ("input", 0, NativeKind::Input),
        ("input_prompt", 1, NativeKind::InputPrompt),
        ("int", 1, NativeKind::Int),
        ("str", 1, NativeKind::Str),
    ] {
        match interpreter.environment.get(0, &name(text)) {
            Ok(LiteralType::NativeFunction { name, arity: takes, func }) => {
                assert_eq!(name, text);
                assert_eq!(takes, arity);
                assert_eq!(func, kind);
            }
            _ => panic!("{text} should be bound to a native function"),
        }
    }
    assert_eq!(interpreter.environment.len(), 1);
    assert!(interpreter.is_done());
}

#[test]
fn native_functions_know_their_names() {
    assert_eq!(Print::name(), "print");
    assert_eq!(PrintLn::name(), "println");
    assert_eq!(Input::name(), "input");
    assert_eq!(InputPrompt::name(), "input_prompt");
    assert_eq!(Int::name(), "int");
    assert_eq!(Str::name(), "str");
    assert!(matches!(
        Str::function(),
        LiteralType::NativeFunction { arity: 1, func: NativeKind::Str, .. }
    ));
    assert!(matches!(
        Input::function(),
        LiteralType::NativeFunction { arity: 0, func: NativeKind::Input, .. }
    ));
}

#[test]
fn an_empty_program_finishes_at_once() {
    let mut interpreter = load("");
    assert!(!interpreter.is_done());
    assert!(matches!(interpreter.step(Event::Resume), Action::Finished));
    assert!(interpreter.is_done());
    assert!(matches!(interpreter.step(Event::Resume), Action::Finished));
    assert!(matches!(interpreter.step(Event::Number(1)), Action::Finished));
}

#[test]
fn arithmetic_is_asked_of_the_host_with_both_operands() {
    let mut interpreter = load("6 / 3;");
    let asked = until_asked(&mut interpreter, Event::Resume);
    match asked {
        Action::Perform(Request::Arithmetic { operator, left, right }) => {
            assert_eq!(operator, ArithmeticOp::Divide);
            assert_eq!(left, 6f32.to_bits());
            assert_eq!(right, 3f32.to_bits());
        }
        _ => panic!("a division should be asked for"),
    }
    assert!(matches!(until_asked(&mut interpreter, Event::Number(2f32.to_bits())), Action::Finished));
}

#[test]
fn each_operator_asks_for_its_operation() {
    for (source, expected) in [
        ("1 + 2;", ArithmeticOp::Add),
        ("1 - 2;", ArithmeticOp::Subtract),
        ("1 * 2;", ArithmeticOp::Multiply),
        ("1 / 2;", ArithmeticOp::Divide),
        ("1 % 2;", ArithmeticOp::Remainder),
    ] {
        match until_asked(&mut load(source), Event::Resume) {
            Action::Perform(Request::Arithmetic { operator, .. }) => assert_eq!(operator, expected),
            _ => panic!("arithmetic should be asked for"),
        }
    }
    for (source, expected) in [
        ("1 > 2;", ComparisonOp::Greater),
        ("1 >= 2;", ComparisonOp::GreaterEqual),
        ("1 < 2;", ComparisonOp::Less),
        ("1 <= 2;", ComparisonOp::LessEqual),
        ("1 == 2;", ComparisonOp::Equal),
        ("1 != 2;", ComparisonOp::NotEqual),
    ] {
        match until_asked(&mut load(source), Event::Resume) {
            Action::Perform(Request::Compare { operator, .. }) => assert_eq!(operator, expected),
            _ => panic!("a comparison should be asked for"),
        }
    }
    assert!(matches!(
        until_asked(&mut load("-5;"), Event::Resume),
        Action::Perform(Request::Negate { operand }) if operand == 5f32.to_bits()
    ));
}

#[test]
fn a_request_is_repeated_until_it_is_answered() {
    let mut interpreter = load("print(\"a\");");
    let asked = until_asked(&mut interpreter, Event::Resume);
    assert!(matches!(&asked, Action::Perform(Request::Write { text, newline: false }) if text == "a"));
    for wrong in [Event::Resume, Event::Number(0), Event::Text("x".to_string()), Event::Integer(1)] {
        let again = interpreter.step(wrong);
        assert!(matches!(&again, Action::Perform(Request::Write { text, newline: false }) if text == "a"));
    }
    assert!(matches!(until_asked(&mut interpreter, Event::Written), Action::Finished));
}

#[test]
fn a_range_loop_asks_for_its_bounds_and_each_number() {
    let mut interpreter = load("for i in 2..3 { }");
    let one = 1f32.to_bits();
    let asked = until_asked(&mut interpreter, Event::Resume);
    assert!(matches!(
        asked,
        Action::Perform(Request::Arithmetic { operator: ArithmeticOp::Add, left, right })
            if left == 3f32.to_bits() && right == one
    ));
    let asked = until_asked(&mut interpreter, Event::Number(4f32.to_bits()));
    assert!(matches!(asked, Action::Perform(Request::Truncate { number }) if number == 2f32.to_bits()));
    let asked = until_asked(&mut interpreter, Event::Integer(2));
    assert!(matches!(asked, Action::Perform(Request::Truncate { number }) if number == 4f32.to_bits()));
    let asked = until_asked(&mut interpreter, Event::Integer(4));
    assert!(matches!(asked, Action::Perform(Request::FromInteger { integer: 2 })));
    let asked = until_asked(&mut interpreter, Event::Number(2f32.to_bits()));
    assert!(matches!(asked, Action::Perform(Request::FromInteger { integer: 3 })));
    let asked = until_asked(&mut interpreter, Event::Number(3f32.to_bits()));
    assert!(matches!(asked, Action::Finished));
}

#[test]
fn a_failed_run_stays_failed() {
    let mut interpreter = load("x;");
    let first = until_asked(&mut interpreter, Event::Resume);
    assert!(matches!(&first, Action::Failed(error) if error.message == "undefined variable"));
    assert!(interpreter.is_done());
    assert!(matches!(interpreter.step(Event::Resume), Action::Failed(_)));
}

#[test]
fn scopes_that_are_left_are_discarded_unless_a_function_keeps_them() {
    let mut interpreter = load("var i = 0; { var a = 1; { var b = 2; } } { var c = 3; }");
    assert!(matches!(until_asked(&mut interpreter, Event::Resume), Action::Finished));
    assert_eq!(interpreter.environment.len(), 1);
    let mut interpreter = load("var f; { var kept = 1; fun g() { return kept; } f = g; { var b = 2; } }");
    assert!(matches!(until_asked(&mut interpreter, Event::Resume), Action::Finished));
    assert_eq!(interpreter.environment.len(), 2);
    assert!(interpreter.environment.is_kept(1));
    assert!(interpreter.environment.is_kept(0) == false);
}

#[test]
fn the_state_can_be_built_by_hand() {
    let mut interpreter = Interpreter::new();
    let literal = Rc::new(Expr::Literal(LiteralType::Bool(true)));
    interpreter.interpret(vec![Rc::new(Stmt::Expression(literal))]);
    assert!(matches!(interpreter.control, Control::Completed(None)));
    assert!(matches!(interpreter.step(Event::Resume), Action::Continue));
    assert!(matches!(interpreter.control, Control::Execute(_)));
    assert!(matches!(interpreter.step(Event::Resume), Action::Continue));
    assert!(matches!(interpreter.control, Control::Evaluate(_)));
    assert!(matches!(interpreter.step(Event::Resume), Action::Continue));
    assert!(matches!(interpreter.control, Control::Value(LiteralType::Bool(true))));
    assert!(matches!(interpreter.step(Event::Resume), Action::Continue));
    assert!(matches!(interpreter.control, Control::Completed(None)));
    assert!(matches!(interpreter.step(Event::Resume), Action::Finished));
}

#[test]
fn run_stops_when_the_host_is_asked_or_the_limit_is_reached() {
    let mut interpreter = load("var a = 1; var b = 2; print(\"x\");");
    assert!(matches!(interpreter.run(Event::Resume, 0), Action::Continue));
    assert!(matches!(interpreter.control, Control::Execute(_)));
    assert!(matches!(interpreter.run(Event::Resume, 2), Action::Continue));
    let asked = interpreter.run(Event::Resume, 1000);
    assert!(matches!(&asked, Action::Perform(Request::Write { text, newline: false }) if text == "x"));
    assert!(matches!(interpreter.run(Event::Written, 1000), Action::Finished));
    assert!(matches!(interpreter.run(Event::Resume, 5), Action::Finished));
}
