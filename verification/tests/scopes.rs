use wind::error::WindError;
use wind::interpreter::environment::Environment;
use wind::token::{Token, TokenType};
use wind::types::LiteralType;

fn name(text: &str) -> Token {
    Token::new(TokenType::Identifier, text.to_string(), LiteralType::Nil, 1)
}

fn number(environment: &Environment, scope: usize, text: &str) -> Option<u32> {
    match environment.get(scope, &name(text)) {
        Ok(LiteralType::Number(bits)) => Some(bits),
        Ok(_) => panic!("a number"),
        Err(_) => None,
    }
}

#[test]
fn a_new_environment_has_the_global_scope_alone() {
    let environment = Environment::new();
    assert_eq!(environment.len(), 1);
    assert_eq!(number(&environment, 0, "x"), None);
}

#[test]
fn define_binds_in_the_scope_itself() {
    let mut environment = Environment::new();
    let inner = environment.with_enclosing(0);
    assert_eq!(inner, 1);
    environment.define(0, "x".to_string(), LiteralType::Number(1));
    environment.define(inner, "x".to_string(), LiteralType::Number(2));
    assert_eq!(number(&environment, 0, "x"), Some(1));
    assert_eq!(number(&environment, inner, "x"), Some(2));
    environment.define(inner, "x".to_string(), LiteralType::Number(3));
    assert_eq!(number(&environment, inner, "x"), Some(3));
    assert_eq!(number(&environment, 0, "x"), Some(1));
}

#[test]
fn get_looks_outwards() {
    let mut environment = Environment::new();
    let middle = environment.with_enclosing(0);
    let inner = environment.with_enclosing(middle);
    let other = environment.with_enclosing(0);
    environment.define(0, "a".to_string(), LiteralType::Number(1));
    environment.define(middle, "b".to_string(), LiteralType::Number(2));
    assert_eq!(number(&environment, inner, "a"), Some(1));
    assert_eq!(number(&environment, inner, "b"), Some(2));
    assert_eq!(number(&environment, other, "a"), Some(1));
    assert_eq!(number(&environment, other, "b"), None);
    assert_eq!(number(&environment, 0, "b"), None);
}

#[test]
fn assign_changes_the_innermost_binding_that_exists() {
    let mut environment = Environment::new();
    let middle = environment.with_enclosing(0);
    let inner = environment.with_enclosing(middle);
    environment.define(0, "x".to_string(), LiteralType::Number(1));
    environment.define(middle, "x".to_string(), LiteralType::Number(2));
    assert!(environment.assign(inner, name("x"), LiteralType::Number(7)).is_ok());
    assert_eq!(number(&environment, inner, "x"), Some(7));
    assert_eq!(number(&environment, middle, "x"), Some(7));
    assert_eq!(number(&environment, 0, "x"), Some(1));
    assert!(environment.assign(0, name("x"), LiteralType::Number(8)).is_ok());
    assert_eq!(number(&environment, 0, "x"), Some(8));
    assert_eq!(number(&environment, inner, "x"), Some(7));
}

#[test]
fn assign_never_declares() {
    let mut environment = Environment::new();
    let inner = environment.with_enclosing(0);
    let error = environment.assign(inner, name("x"), LiteralType::Number(1)).unwrap_err();
    assert_eq!(error.report(), "[line 1]: near 'x' undefined variable");
    assert_eq!(error.exit_code(), 1);
    assert_eq!(number(&environment, inner, "x"), None);
    assert_eq!(number(&environment, 0, "x"), None);
}

#[test]
fn get_of_an_unbound_name_fails() {
    let environment = Environment::new();
    let error = environment.get(0, &name("missing")).map(|_| ()).unwrap_err();
    assert_eq!(error.report(), "[line 1]: near 'missing' undefined variable");
}

#[test]
fn every_holder_of_a_scope_sees_an_assignment() {
    let mut environment = Environment::new();
    let kept = environment.with_enclosing(0);
    environment.define(kept, "n".to_string(), LiteralType::Number(0));
    let first = environment.with_enclosing(kept);
    let second = environment.with_enclosing(kept);
    assert!(environment.assign(first, name("n"), LiteralType::Number(5)).is_ok());
    assert_eq!(number(&environment, second, "n"), Some(5));
    assert_eq!(number(&environment, kept, "n"), Some(5));
    let later = environment.with_enclosing(kept);
    assert_eq!(number(&environment, later, "n"), Some(5));
}
