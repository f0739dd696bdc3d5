use wind::error::{ParseError, RuntimeError, ScannerError, WindError};
use wind::token::{Token, TokenType};
use wind::types::LiteralType;

#[test]
fn scanner_error_reports_its_line() {
    let error = ScannerError::new(3, "unterminated string".to_string());
    assert_eq!(error.report(), "[line 3]: unterminated string");
    assert_eq!(error.exit_code(), 65);
}

#[test]
fn parse_error_reports_the_line_of_its_token() {
    let token = Token::new(TokenType::Semicolon, ";".to_string(), LiteralType::Nil, 12);
    let error = ParseError::new(token, "expect expression".to_string());
    assert_eq!(error.report(), "[line 12]: expect expression");
    assert_eq!(error.exit_code(), 1);
}

#[test]
fn runtime_error_reports_line_and_lexeme() {
    let token = Token::new(TokenType::Plus, "+".to_string(), LiteralType::Nil, 1005);
    let error = RuntimeError::new(token, "cannot add".to_string());
    assert_eq!(error.report(), "[line 1005]: near '+' cannot add");
    assert_eq!(error.exit_code(), 1);
}

#[test]
fn line_numbers_are_written_in_decimal() {
    for line in [0, 7, 10, 99, 100, 2147483647, -1, -2147483648] {
        let error = ScannerError::new(line, "m".to_string());
        assert_eq!(error.report(), format!("[line {line}]: m"));
    }
}

#[test]
fn a_token_keeps_what_it_was_made_of() {
    let token = Token::new(TokenType::Number, "12".to_string(), LiteralType::Number(5), 3);
    assert_eq!(token.t_type, TokenType::Number);
    assert_eq!(token.lexeme, "12");
    assert!(matches!(token.literal, LiteralType::Number(5)));
    assert_eq!(token.line, 3);
    let copy = token.clone();
    assert_eq!(copy.lexeme, "12");
    assert_eq!(copy.line, 3);
}
