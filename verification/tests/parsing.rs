use std::rc::Rc;
use wind::ast::{Expr, Stmt};
use wind::error::WindError;
use wind::parser::Parser;
use wind::scanner::Scanner;
use wind::token::TokenType;
use wind::types::LiteralType;

fn parse(source: &str) -> Vec<Rc<Stmt>> {
    let tokens = Scanner::new(source.to_string()).scan_tokens().expect("the source should scan");
    Parser::new(tokens).parse().expect("the source should parse")
}

fn violation(source: &str) -> String {
    let tokens = Scanner::new(source.to_string()).scan_tokens().expect("the source should scan");
    Parser::new(tokens).parse().map(|_| ()).unwrap_err().report()
}

/// The expression in prefix form, every operation in parentheses.
fn show(expr: &Expr) -> String {
    match expr {
        Expr::Group(inner) => format!("(group {})", show(inner)),
        Expr::Literal(LiteralType::Number(bits)) => format!("{}", f32::from_bits(*bits)),
        Expr::Literal(LiteralType::String(text)) => format!("{text:?}"),
        Expr::Literal(LiteralType::Bool(value)) => format!("{value}"),
        Expr::Literal(_) => "nil".to_string(),
        Expr::Variable(name) => name.lexeme.clone(),
        Expr::Binary { left, operator, right } => {
            format!("({} {} {})", operator.lexeme, show(left), show(right))
        }
        Expr::Unary { operator, right } => format!("({} {})", operator.lexeme, show(right)),
        Expr::Call { callee, args, .. } => {
            let shown: Vec<String> = args.iter().map(|arg| show(arg)).collect();
            format!("(call {} [{}])", show(callee), shown.join(" "))
        }
        Expr::Assign { name, value } => format!("(= {} {})", name.lexeme, show(value)),
        Expr::Logical { left, operator, right } => {
            format!("({} {} {})", operator.lexeme, show(left), show(right))
        }
    }
}

fn describe(stmt: &Stmt) -> String {
    match stmt {
        Stmt::Expression(expr) => format!("{};", show(expr)),
        Stmt::Block(statements) => {
            let shown: Vec<String> = statements.iter().map(|s| describe(s)).collect();
            format!("{{ {} }}", shown.join(" "))
        }
        Stmt::VarDecl { name, initializer } => match initializer {
            Some(expr) => format!("var {} = {};", name.lexeme, show(expr)),
            None => format!("var {};", name.lexeme),
        },
        Stmt::While { condition, body } => match condition {
            Some(expr) => format!("while {} {}", show(expr), describe(body)),
            None => format!("while {}", describe(body)),
        },
        Stmt::ForRange { name, range_start, range_end, body } => format!(
            "for {} in {}..{} {}",
            name.lexeme,
            show(range_start),
            show(range_end),
            describe(body)
        ),
        Stmt::If { condition, then_branch, else_branch } => match else_branch {
            Some(other) => {
                format!("if {} {} else {}", show(condition), describe(then_branch), describe(other))
            }
            None => format!("if {} {}", show(condition), describe(then_branch)),
        },
        Stmt::FunctionDecl { name, params, body } => {
            let names: Vec<String> = params.iter().map(|p| p.lexeme.clone()).collect();
            let shown: Vec<String> = body.iter().map(|s| describe(s)).collect();
            format!("fun {}({}) {{ {} }}", name.lexeme, names.join(", "), shown.join(" "))
        }
        Stmt::Return { value, .. } => format!("return {};", show(value)),
    }
}

fn shape(source: &str) -> String {
    let shown: Vec<String> = parse(source).iter().map(|s| describe(s)).collect();
    shown.join(" ")
}

#[test]
fn an_empty_program_has_no_statements() {
    assert_eq!(parse("").len(), 0);
    assert_eq!(parse("// nothing\n").len(), 0);
}

#[test]
fn binary_operators_group_by_precedence_and_from_the_left() {
    assert_eq!(shape("1 + 2 * 3;"), "(+ 1 (* 2 3));");
    assert_eq!(shape("1 - 2 - 3;"), "(- (- 1 2) 3);");
    assert_eq!(shape("8 / 4 % 3 * 2;"), "(* (% (/ 8 4) 3) 2);");
    assert_eq!(shape("1 < 2 == 3 >= 4;"), "(== (< 1 2) (>= 3 4));");
    assert_eq!(shape("1 + 2 < 3 != true;"), "(!= (< (+ 1 2) 3) true);");
}

#[test]
fn logical_operators_group_from_the_right() {
    assert_eq!(shape("a or b or c;"), "(or a (or b c));");
    assert_eq!(shape("a and b and c;"), "(and a (and b c));");
    assert_eq!(shape("a or b and c or d;"), "(or a (or (and b c) d));");
}

#[test]
fn unary_operators_nest() {
    assert_eq!(shape("!-x;"), "(! (- x));");
    assert_eq!(shape("-f(1);"), "(- (call f [1]));");
    assert_eq!(shape("- 1 - - 2;"), "(- (- 1) (- 2));");
}

#[test]
fn groups_are_kept() {
    assert_eq!(shape("(1 + 2) * 3;"), "(* (group (+ 1 2)) 3);");
}

#[test]
fn calls_chain_and_take_arguments() {
    assert_eq!(shape("f();"), "(call f []);");
    assert_eq!(shape("f(1, a + b)(\"s\");"), "(call (call f [1 (+ a b)]) [\"s\"]);");
}

#[test]
fn the_paren_of_a_call_is_its_closing_parenthesis() {
    let statements = parse("f(\n1\n);");
    let Stmt::Expression(expr) = &*statements[0] else { panic!("an expression statement") };
    let Expr::Call { paren, .. } = &**expr else { panic!("a call") };
    assert_eq!(paren.t_type, TokenType::RightParen);
    assert_eq!(paren.line, 3);
}

#[test]
fn assignment_groups_from_the_right() {
    assert_eq!(shape("a = b = 1;"), "(= a (= b 1));");
    assert_eq!(shape("a = b or c;"), "(= a (or b c));");
}

#[test]
fn compound_assignment_stands_for_an_assignment_of_a_binary_expression() {
    assert_eq!(shape("a += 1;"), "(= a (+= a 1));");
    assert_eq!(shape("a -= b * 2;"), "(= a (-= a (* b 2)));");
    assert_eq!(shape("a *= 2;"), "(= a (*= a 2));");
    assert_eq!(shape("a /= 2;"), "(= a (/= a 2));");
    assert_eq!(shape("a %= 2;"), "(= a (%= a 2));");
    assert_eq!(shape("a += b += 1;"), "(= a (+= a (= b (+= b 1))));");
}

#[test]
fn only_a_name_can_be_assigned_to() {
    assert_eq!(violation("f() = 1;"), "[line 1]: invalid assignment target");
    assert_eq!(violation("1 += 2;"), "[line 1]: invalid assignment target");
    assert_eq!(violation("(a) = 2;"), "[line 1]: invalid assignment target");
}

#[test]
fn declarations() {
    assert_eq!(shape("var a; var b = 1 + 2;"), "var a; var b = (+ 1 2);");
    assert_eq!(shape("fun f() { }"), "fun f() {  }");
    assert_eq!(shape("fun add(a, b) { return a + b; }"), "fun add(a, b) { return (+ a b); }");
    assert_eq!(shape("fun f() { return; }"), "fun f() { return nil; }");
}

#[test]
fn if_and_while_take_any_statement() {
    assert_eq!(shape("if (a) b; else c;"), "if a b; else c;");
    assert_eq!(shape("if a { b; }"), "if a { b; }");
    assert_eq!(shape("if (a) if (b) c; else d;"), "if a if b c; else d;");
    assert_eq!(shape("while (a) b;"), "while a b;");
    assert_eq!(shape("while a { b; c; }"), "while a { b; c; }");
}

#[test]
fn range_loops_keep_their_own_node() {
    assert_eq!(shape("for i in 1..n + 1 { f(i); }"), "for i in 1..(+ n 1) { (call f [i]); }");
    assert_eq!(shape("for (i in a..b) f(i);"), "for i in a..b (call f [i]);");
}

#[test]
fn three_clause_loops_become_while_loops() {
    assert_eq!(
        shape("for (var i = 0; i < 3; i = i + 1) f(i);"),
        "{ var i = 0; while (< i 3) { (call f [i]); (= i (+ i 1)); } }"
    );
    assert_eq!(shape("for (; a; b) c;"), "while a { c; b; }");
    assert_eq!(shape("for (1; ; i += 1) c;"), "{ 1; while true { c; (= i (+= i 1)); } }");
    assert_eq!(shape("for (;;) c;"), "while true c;");
    assert_eq!(shape("for (; i < 3;) c;"), "while (< i 3) c;");
    assert_eq!(shape("for var i = 0; i < 3; i += 1 { c; }"), "{ var i = 0; while (< i 3) { { c; } (= i (+= i 1)); } }");
}

#[test]
fn a_name_after_for_begins_a_range_loop() {
    assert_eq!(violation("for (i = 0; i < 3; i += 1) c;"), "[line 1]: expected 'in' after name");
}

#[test]
fn the_first_violation_is_reported_with_its_line() {
    assert_eq!(violation("1 +;"), "[line 1]: expect expression");
    assert_eq!(violation("a\n"), "[line 2]: expect ';' after expression");
    assert_eq!(violation("var 1;"), "[line 1]: expect variable name");
    assert_eq!(violation("var a = 1"), "[line 1]: expect ';' after variable declaration");
    assert_eq!(violation("(1;"), "[line 1]: expected ')' after expression");
    assert_eq!(violation("f(1;"), "[line 1]: expect ')' after arguments");
    assert_eq!(violation("{ a;"), "[line 1]: expect '}' after block");
    assert_eq!(violation("return 1"), "[line 1]: expect ';' after return value");
    assert_eq!(violation("for i 1..2 { }"), "[line 1]: expected 'in' after name");
    assert_eq!(violation("for i in 1 2 { }"), "[line 1]: expected '..' after expression");
    assert_eq!(violation("for (var i = 0; i < 3 i) c;"), "[line 1]: expect ';' after loop condition");
    assert_eq!(violation("fun 1() { }"), "[line 1]: expect function name");
    assert_eq!(violation("fun f { }"), "[line 1]: expect '(' after function name");
    assert_eq!(violation("fun f(1) { }"), "[line 1]: expect parameter name.");
    assert_eq!(violation("fun f(a, ) { }"), "[line 1]: expect parameter name.");
    assert_eq!(violation("fun f(a b) { }"), "[line 1]: expect ')' after function parameters");
    assert_eq!(violation("fun f() a;"), "[line 1]: expect '{' before function body");
    assert_eq!(violation("a;\nb;\n1 = 2;\nc"), "[line 3]: invalid assignment target");
}

#[test]
fn a_parse_error_ends_with_status_one() {
    let tokens = Scanner::new("1 +".to_string()).scan_tokens().unwrap();
    let error = Parser::new(tokens).parse().map(|_| ()).unwrap_err();
    assert_eq!(error.exit_code(), 1);
    assert_eq!(error.token.t_type, TokenType::EOF);
}
