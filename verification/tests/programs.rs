use std::collections::VecDeque;
use std::rc::Rc;
use wind::ast::{Expr, Stmt};
use wind::error::WindError;
use wind::interpreter::host::{Action, ArithmeticOp, ComparisonOp, Event, Request};
use wind::interpreter::Interpreter;
use wind::parser::Parser;
use wind::scanner::Scanner;
use wind::token::{Token, TokenType};
use wind::types::LiteralType;

fn number(bits: u32) -> f32 {
    f32::from_bits(bits)
}

fn perform(request: Request, output: &mut String, input: &mut VecDeque<String>) -> Event {
    match request {
        Request::Arithmetic { operator, left, right } => {
            let (a, b) = (number(left), number(right));
            let result = match operator {
                ArithmeticOp::Add => a + b,
                ArithmeticOp::Subtract => a - b,
                ArithmeticOp::Multiply => a * b,
                ArithmeticOp::Divide => a / b,
                ArithmeticOp::Remainder => a % b,
            };
            Event::Number(result.to_bits())
        }
        Request::Compare { operator, left, right } => {
            let (a, b) = (number(left), number(right));
            Event::Boolean(match operator {
                ComparisonOp::Greater => a > b,
                ComparisonOp::GreaterEqual => a >= b,
                ComparisonOp::Less => a < b,
                ComparisonOp::LessEqual => a <= b,
                ComparisonOp::Equal => a == b,
                ComparisonOp::NotEqual => a != b,
            })
        }
        Request::Negate { operand } => Event::Number((-number(operand)).to_bits()),
        Request::Truncate { number: bits } => Event::Integer(number(bits) as i32),
        Request::FromInteger { integer } => Event::Number((integer as f32).to_bits()),
        Request::Parse { text } => Event::Parsed(text.parse::<f32>().ok().map(f32::to_bits)),
        Request::Format { number: bits } => Event::Text(format!("{}", number(bits))),
        Request::Write { text, newline } => {
            output.push_str(&text);
            if newline {
                output.push('\n');
            }
            Event::Written
        }
        Request::ReadLine => Event::Text(input.pop_front().unwrap_or_default()),
    }
}

/// Runs a program to its end: what it wrote, and the report of its failure
/// if it failed.
fn run_with_input(source: &str, lines: &[&str]) -> (String, Option<String>) {
    let mut scanner = Scanner::new(source.to_string());
    let tokens = match scanner.scan_tokens() {
        Ok(tokens) => tokens,
        Err(error) => return (String::new(), Some(error.report())),
    };
    let mut parser = Parser::new(tokens);
    let statements = match parser.parse() {
        Ok(statements) => statements,
        Err(error) => return (String::new(), Some(error.report())),
    };
    let mut interpreter = Interpreter::new();
    interpreter.interpret(statements);
    let mut output = String::new();
    let mut input: VecDeque<String> = lines.iter().map(|line| line.to_string()).collect();
    let mut event = Event::Resume;
    let mut steps = 0u64;
    loop {
        steps += 1;
        assert!(steps < 10_000_000, "the program does not end");
        match interpreter.step(event) {
            Action::Continue => event = Event::Resume,
            Action::Perform(request) => event = perform(request, &mut output, &mut input),
            Action::Finished => return (output, None),
            Action::Failed(error) => return (output, Some(error.report())),
        }
    }
}

fn run(source: &str) -> (String, Option<String>) {
    run_with_input(source, &[])
}

fn prints(source: &str) -> String {
    let (output, failure) = run(source);
    assert_eq!(failure, None, "output so far: {output}");
    output
}

fn fails(source: &str) -> String {
    let (_, failure) = run(source);
    failure.expect("the program should fail")
}

#[test]
fn arithmetic_follows_the_host_numbers() {
    assert_eq!(prints("print(1 + 2);"), "3");
    assert_eq!(prints("print(7 - 10);"), "-3");
    assert_eq!(prints("print(6 * 7);"), "42");
    assert_eq!(prints("print(7 / 2);"), "3.5");
    assert_eq!(prints("print(7 % 4);"), "3");
    assert_eq!(prints("print(1 / 0);"), "inf");
    assert_eq!(prints("print(0 / 0);"), "NaN");
    assert_eq!(prints("print(-(1) / 0);"), "-inf");
}

#[test]
fn comparisons_give_booleans() {
    assert_eq!(prints("print(1 < 2);"), "true");
    assert_eq!(prints("print(2 <= 2);"), "true");
    assert_eq!(prints("print(1 > 2);"), "false");
    assert_eq!(prints("print(2 >= 3);"), "false");
    assert_eq!(prints("print(2 == 2);"), "true");
    assert_eq!(prints("print(2 != 2);"), "false");
    assert_eq!(prints("print(0 / 0 == 0 / 0);"), "false");
}

#[test]
fn precedence_and_grouping() {
    assert_eq!(prints("print(1 + 2 * 3);"), "7");
    assert_eq!(prints("print((1 + 2) * 3);"), "9");
    assert_eq!(prints("print(10 - 4 - 3);"), "3");
    assert_eq!(prints("print(-2 * 3);"), "-6");
    assert_eq!(prints("print(1 + 2 < 4 or false);"), "true");
    assert_eq!(prints("print(1 + 2 == 3 and 2 * 2 == 4);"), "true");
}

#[test]
fn strings_join_and_numbers_do_not_mix() {
    assert_eq!(prints("print(\"a\" + \"b\");"), "ab");
    assert_eq!(fails("print(\"a\" + 1);"), "[line 1]: near '+' cannot add");
}

#[test]
fn string_equality_is_by_text() {
    assert_eq!(prints("print(\"ab\" == \"a\" + \"b\");"), "true");
    assert_eq!(prints("print(\"ab\" != \"ab\");"), "false");
}

#[test]
fn shadowing_leaves_the_outer_binding() {
    assert_eq!(prints("var x = 1; { var x = 2; } print(x);"), "1");
}

#[test]
fn assignment_reaches_the_outer_binding() {
    assert_eq!(prints("var x = 1; { x = 2; } print(x);"), "2");
}

#[test]
fn closures_see_later_assignments() {
    let source = "
        fun make() {
            var count = 0;
            fun read() { return count; }
            fun bump() { count = count + 1; return count; }
            bump();
            bump();
            return read;
        }
        var read = make();
        print(read());
    ";
    assert_eq!(prints(source), "2");
    let source = "
        var x = 1;
        fun show() { println(x); }
        show();
        x = 5;
        show();
        { var x = 9; show(); }
    ";
    assert_eq!(prints(source), "1\n5\n5\n");
}

#[test]
fn a_counter_keeps_its_scope() {
    let source = "
        fun counter() {
            var n = 0;
            fun next() { n += 1; return n; }
            return next;
        }
        var a = counter();
        var b = counter();
        println(a());
        println(a());
        println(b());
    ";
    assert_eq!(prints(source), "1\n2\n1\n");
}

#[test]
fn range_loops_include_their_end() {
    assert_eq!(prints("for i in 1..3 { println(i); }"), "1\n2\n3\n");
    assert_eq!(prints("for i in 3..1 { println(i); }"), "");
    assert_eq!(prints("for (i in 0..1) print(i);"), "01");
}

#[test]
fn range_bounds_must_be_numbers() {
    assert_eq!(fails("for i in 1..\"3\" { }"), "[line 1]: near 'i' range must be a number");
}

#[test]
fn arity_is_checked_before_the_body_runs() {
    let source = "fun f(a) { println(\"ran\"); } f(1, 2);";
    let (output, failure) = run(source);
    assert_eq!(output, "");
    assert_eq!(failure.unwrap(), "[line 1]: near ')' expected 1 arguments but got 2");
    assert_eq!(fails("print();"), "[line 1]: near ')' expected 1 arguments but got 0");
}

#[test]
fn assigning_an_undeclared_name_fails() {
    assert_eq!(fails("x = 1;"), "[line 1]: near 'x' undefined variable");
    assert_eq!(fails("print(y);"), "[line 1]: near 'y' undefined variable");
}

#[test]
fn equality_needs_like_kinds() {
    assert_eq!(fails("print(true == 1);"), "[line 1]: near '==' cannot compare");
    assert_eq!(fails("print(true == true);"), "[line 1]: near '==' cannot compare");
    assert_eq!(fails("print(nil != nil);"), "[line 1]: near '!=' cannot compare");
}

#[test]
fn only_true_is_truthy() {
    assert_eq!(prints("if (1) print(\"yes\"); else print(\"no\");"), "no");
    assert_eq!(prints("if (true) print(\"yes\"); else print(\"no\");"), "yes");
    assert_eq!(prints("if (\"x\") print(\"yes\");"), "");
    assert_eq!(prints("print(!true);"), "false");
    assert_eq!(prints("print(!nil);"), "true");
    assert_eq!(prints("print(!0);"), "true");
}

#[test]
fn logical_operators_keep_the_deciding_value() {
    assert_eq!(prints("print(true or 1);"), "true");
    assert_eq!(prints("print(nil or 2);"), "2");
    assert_eq!(prints("print(nil and 2);"), "nil");
    assert_eq!(prints("print(true and 2);"), "2");
    assert_eq!(prints("fun f() { println(\"f\"); return true; } print(true or f());"), "true");
}

#[test]
fn operands_must_be_numbers() {
    assert_eq!(fails("print(1 - \"a\");"), "[line 1]: near '-' operands must be a number");
    assert_eq!(fails("print(\"a\" < 1);"), "[line 1]: near '<' operands must be a number");
    assert_eq!(fails("print(-\"a\");"), "[line 1]: near '-' operand must be a number");
}

#[test]
fn while_and_three_clause_loops() {
    assert_eq!(prints("var i = 0; while (i < 3) { print(i); i = i + 1; }"), "012");
    assert_eq!(prints("for (var i = 0; i < 3; i += 1) print(i);"), "012");
    assert_eq!(prints("for var i = 0; i < 3; i = i + 1 { print(i); }"), "012");
    assert_eq!(prints("var i = 5; for (; i < 7; i = i + 1) print(i); print(i);"), "567");
}

#[test]
fn compound_assignment() {
    assert_eq!(prints("var x = 7; x += 3; print(x);"), "10");
    assert_eq!(prints("var x = 7; x -= 3; print(x);"), "4");
    assert_eq!(prints("var x = 7; x *= 3; print(x);"), "21");
    assert_eq!(prints("var x = 7; x /= 2; print(x);"), "3.5");
    assert_eq!(prints("var x = 7; x %= 4; print(x);"), "3");
    assert_eq!(prints("var s = \"a\"; s += \"b\"; print(s);"), "ab");
}

#[test]
fn return_leaves_loops_and_blocks() {
    let source = "
        fun first() {
            for i in 1..10 {
                while (true) {
                    { if (i == 3) return i; }
                    i = i + 1;
                }
            }
            return 0;
        }
        print(first());
    ";
    assert_eq!(prints(source), "3");
    assert_eq!(prints("fun f() { } print(f());"), "nil");
    assert_eq!(prints("fun f() { return; } print(f());"), "nil");
}

#[test]
fn a_return_at_top_level_is_dropped() {
    assert_eq!(prints("print(1); return 5; print(2);"), "12");
}

#[test]
fn calls_chain_from_the_left() {
    assert_eq!(prints("fun f() { fun g() { return 7; } return g; } print(f()());"), "7");
}

#[test]
fn recursion() {
    let source = "fun fib(n) { if (n < 2) return n; return fib(n - 1) + fib(n - 2); } print(fib(15));";
    assert_eq!(prints(source), "610");
}

#[test]
fn only_functions_can_be_called() {
    assert_eq!(fails("var x = 1; x();"), "[line 1]: near ')' can only call functions and classes");
    assert_eq!(fails("\"f\"(1);"), "[line 1]: near ')' can only call functions and classes");
}

#[test]
fn arguments_are_evaluated_before_the_callee_is_checked() {
    let (output, failure) = run("var x = 1; x(print(\"a\"));");
    assert_eq!(output, "a");
    assert!(failure.is_some());
}

#[test]
fn functions_are_values() {
    assert_eq!(prints("fun f() { } print(f);"), "<fn f>");
    assert_eq!(prints("print(print);"), "<fn print>");
    assert_eq!(prints("fun f() { return 1; } var g = f; f = 2; print(g() + f);"), "3");
}

#[test]
fn native_text_functions() {
    assert_eq!(prints("println(nil); println(true); println(\"s\"); println(5 / 2);"), "nil\ntrue\ns\n2.5\n");
}

#[test]
fn str_and_int_convert() {
    assert_eq!(prints("print(str(12) + \"!\");"), "12!");
    assert_eq!(prints("print(str(\"a\"));"), "a");
    assert_eq!(prints("print(int(7 / 2));"), "3");
    assert_eq!(prints("print(int(0 - 7 / 2));"), "-3");
    assert_eq!(prints("print(int(\"12.75\") + 1);"), "13");
    assert_eq!(fails("int(\"x\");"), "[line 1]: near ')' cannot cast to int");
    assert_eq!(fails("int(nil);"), "[line 1]: near ')' cannot cast to int");
    assert_eq!(fails("str(nil);"), "[line 1]: near ')' cannot cast to string");
}

#[test]
fn input_reads_lines() {
    let (output, failure) = run_with_input("var a = input(); print(a + \"|\");", &["hello\n"]);
    assert_eq!(failure, None);
    assert_eq!(output, "hello\n|");
    let (output, failure) =
        run_with_input("var a = input_prompt(\"name? \"); print(a + \"|\");", &["hello\n"]);
    assert_eq!(failure, None);
    assert_eq!(output, "name? hello|");
    let (_, failure) = run_with_input("input_prompt(1);", &[]);
    assert_eq!(failure.unwrap(), "[line 1]: near ')' expected a string");
}

#[test]
fn the_first_error_ends_the_run() {
    let (output, failure) = run("print(1);\nprint(x);\nprint(2);");
    assert_eq!(output, "1");
    assert_eq!(failure.unwrap(), "[line 2]: near 'x' undefined variable");
}

#[test]
fn parse_errors_are_reported_with_their_line() {
    assert_eq!(fails("var x = 1\nprint(x);"), "[line 2]: expect ';' after variable declaration");
    assert_eq!(fails("f() = 1;"), "[line 1]: invalid assignment target");
    assert_eq!(fails("print(1;"), "[line 1]: expect ')' after arguments");
    assert_eq!(fails("fun (a) { }"), "[line 1]: expect function name");
}

#[test]
fn scan_errors_are_reported_with_their_line() {
    assert_eq!(fails("var x = 1;\n@"), "[line 2]: unexpected character '@'");
    assert_eq!(fails("\"abc"), "[line 1]: unterminated string");
}

#[test]
fn unknown_operators_fail_the_run() {
    let one = || Rc::new(Expr::Literal(LiteralType::Number(1f32.to_bits())));
    let comma = Token::new(TokenType::Comma, ",".to_string(), LiteralType::Nil, 4);
    for expr in [
        Expr::Binary { left: one(), operator: comma.clone(), right: one() },
        Expr::Unary { operator: comma.clone(), right: one() },
    ] {
        let mut interpreter = Interpreter::new();
        interpreter.interpret(vec![Rc::new(Stmt::Expression(Rc::new(expr)))]);
        let mut event = Event::Resume;
        let failure = loop {
            match interpreter.step(event) {
                Action::Continue => event = Event::Resume,
                Action::Failed(error) => break error.report(),
                _ => panic!("the run should fail"),
            }
        };
        assert_eq!(failure, "[line 4]: near ',' unknown operator");
    }
}

#[test]
fn scoping_is_lexical() {
    let source = "
        var x = \"global\";
        fun show() { print(x); }
        fun test() { var x = \"local\"; show(); }
        test();
    ";
    assert_eq!(prints(source), "global");
}

#[test]
fn parameters_shadow_and_later_ones_win() {
    assert_eq!(prints("var a = 1; fun f(a) { a = a + 1; return a; } print(f(5)); print(a);"), "61");
    assert_eq!(prints("fun f(a, a) { return a; } print(f(1, 2));"), "2");
}

#[test]
fn a_function_can_change_what_it_does_not_own() {
    assert_eq!(prints("var n = 0; fun up() { n = n + 1; } up(); up(); print(n);"), "2");
}

#[test]
fn a_function_declared_in_a_loop_keeps_the_scope_of_its_round() {
    let source = "
        var first = nil;
        var last = nil;
        for i in 1..3 {
            var mine = i * 10;
            fun get() { return mine + i; }
            if (i == 1) first = get;
            last = get;
        }
        println(first());
        println(last());
    ";
    assert_eq!(prints(source), "13\n33\n");
}

#[test]
fn functions_can_be_redefined_and_passed_on() {
    let source = "
        fun twice(f, x) { return f(f(x)); }
        fun inc(x) { return x + 1; }
        println(twice(inc, 1));
        fun inc(x) { return x + 10; }
        println(twice(inc, 1));
    ";
    assert_eq!(prints(source), "3\n21\n");
}

#[test]
fn deep_recursion_and_long_loops_run() {
    let source = "fun down(n) { if (n == 0) return 0; return down(n - 1); } print(down(2000));";
    assert_eq!(prints(source), "0");
    let source = "var s = 0; for i in 1..20000 { var t = i; s = s + 1; } print(s);";
    assert_eq!(prints(source), "20000");
}

#[test]
fn blocks_see_later_definitions_of_the_scopes_around_them() {
    let source = "
        fun f() { return g(); }
        fun g() { return 5; }
        print(f());
    ";
    assert_eq!(prints(source), "5");
}

#[test]
fn a_declaration_may_be_repeated() {
    assert_eq!(prints("var a = 1; var a = 2; print(a);"), "2");
    assert_eq!(prints("var a; print(a);"), "nil");
}

#[test]
fn else_belongs_to_the_nearest_if() {
    assert_eq!(prints("if (true) if (false) print(1); else print(2);"), "2");
    assert_eq!(prints("if (false) if (true) print(1); else print(2);"), "");
}

#[test]
fn fractional_bounds_are_cut_towards_zero() {
    assert_eq!(prints("for i in 3 / 2..7 / 2 { print(i); }"), "123");
    assert_eq!(prints("for i in 0 - 3 / 2..0 - 1 / 2 { print(i); }"), "-1");
    assert_eq!(prints("var i = 9; for i in 1..2 { } print(i);"), "9");
}

#[test]
fn words_of_other_scripts_are_identifiers() {
    assert_eq!(prints("var größe = 3; print(größe);"), "3");
}
