use wind::error::WindError;
use wind::number::{digits_to_single, to_single};
use wind::scanner::Scanner;
use wind::token::{Token, TokenType};
use wind::types::LiteralType;

fn scan(source: &str) -> Vec<Token> {
    Scanner::new(source.to_string()).scan_tokens().expect("the source should scan")
}

fn kinds(source: &str) -> Vec<TokenType> {
    scan(source).iter().map(|token| token.t_type).collect()
}

#[test]
fn an_empty_source_gives_the_end_token() {
    let tokens = scan("");
    assert_eq!(tokens.len(), 1);
    assert_eq!(tokens[0].t_type, TokenType::EOF);
    assert_eq!(tokens[0].lexeme, "");
    assert_eq!(tokens[0].line, 1);
}

#[test]
fn operators_of_one_and_two_characters() {
    assert_eq!(
        kinds("( ) { } , . .. ; - -= + += * *= % %= / /= ! != = == < <= > >="),
        vec![
            TokenType::LeftParen, TokenType::RightParen, TokenType::LeftBrace, TokenType::RightBrace, TokenType::Comma, TokenType::Dot, TokenType::DotDot, TokenType::Semicolon, TokenType::Minus,
            TokenType::MinusEqual, TokenType::Plus, TokenType::PlusEqual, TokenType::Star, TokenType::StarEqual, TokenType::Percent, TokenType::PercentEqual, TokenType::Slash,
            TokenType::SlashEqual, TokenType::Bang, TokenType::BangEqual, TokenType::Equal, TokenType::EqualEqual, TokenType::Less, TokenType::LessEqual, TokenType::Greater,
            TokenType::GreaterEqual, TokenType::EOF
        ]
    );
}

#[test]
fn keywords_and_identifiers() {
    assert_eq!(
        kinds("and class else true false for while fun if nil or return super this var in"),
        vec![
            TokenType::And, TokenType::Class, TokenType::Else, TokenType::True, TokenType::False, TokenType::For, TokenType::While, TokenType::Fun, TokenType::If, TokenType::Nil, TokenType::Or, TokenType::Return, TokenType::Super, TokenType::This,
            TokenType::Var, TokenType::In, TokenType::EOF
        ]
    );
    assert_eq!(kinds("andy print println x_1 forty"), vec![TokenType::Identifier; 5].into_iter().chain([TokenType::EOF]).collect::<Vec<_>>());
    let tokens = scan("x_1");
    assert_eq!(tokens[0].lexeme, "x_1");
}

#[test]
fn a_comment_runs_to_the_end_of_its_line() {
    assert_eq!(kinds("a // b c\nd // e"), vec![TokenType::Identifier, TokenType::Identifier, TokenType::EOF]);
    let tokens = scan("a // b c\nd");
    assert_eq!(tokens[1].line, 2);
}

#[test]
fn lines_are_counted_from_one() {
    let tokens = scan("a\n\nb\r\n c");
    assert_eq!(tokens[0].line, 1);
    assert_eq!(tokens[1].line, 3);
    assert_eq!(tokens[2].line, 4);
    assert_eq!(tokens[3].line, 4);
}

#[test]
fn a_string_keeps_its_text_and_turns_escapes_into_line_breaks() {
    let tokens = scan("\"a\\nb\" \"\"");
    assert_eq!(tokens[0].t_type, TokenType::String);
    assert_eq!(tokens[0].lexeme, "\"a\\nb\"");
    assert!(matches!(&tokens[0].literal, LiteralType::String(text) if text == "a\nb"));
    assert!(matches!(&tokens[1].literal, LiteralType::String(text) if text.is_empty()));
    let tokens = scan("\"a\\\\nb\\\"");
    assert!(matches!(&tokens[0].literal, LiteralType::String(text) if text == "a\\\nb\\"));
}

#[test]
fn a_string_over_lines_is_stamped_with_its_last_line() {
    let tokens = scan("\"a\nb\" c");
    assert_eq!(tokens[0].line, 2);
    assert_eq!(tokens[1].line, 2);
}

#[test]
fn an_unterminated_string_is_a_fault_at_the_line_it_reaches() {
    let error = Scanner::new("x\n\"ab\ncd".to_string()).scan_tokens().unwrap_err();
    assert_eq!(error.report(), "[line 3]: unterminated string");
    assert_eq!(error.exit_code(), 65);
}

#[test]
fn an_unexpected_character_is_a_fault() {
    let error = Scanner::new("a # b".to_string()).scan_tokens().unwrap_err();
    assert_eq!(error.report(), "[line 1]: unexpected character '#'");
    let error = Scanner::new("_a".to_string()).scan_tokens().unwrap_err();
    assert_eq!(error.report(), "[line 1]: unexpected character '_'");
}

#[test]
fn a_number_is_a_run_of_digits() {
    let tokens = scan("12 007 1.5");
    assert_eq!(tokens[0].lexeme, "12");
    assert!(matches!(tokens[0].literal, LiteralType::Number(bits) if bits == 12f32.to_bits()));
    assert!(matches!(tokens[1].literal, LiteralType::Number(bits) if bits == 7f32.to_bits()));
    assert_eq!(
        tokens[2..].iter().map(|token| token.t_type).collect::<Vec<_>>(),
        vec![TokenType::Number, TokenType::Dot, TokenType::Number, TokenType::EOF]
    );
}

#[test]
fn digits_of_another_script_are_no_number() {
    let error = Scanner::new("1\u{0663}".to_string()).scan_tokens().unwrap_err();
    assert_eq!(error.report(), "[line 1]: cannot parse number");
}

#[test]
fn numbers_are_rounded_to_the_nearest_single() {
    let cases: [u128; 24] = [
        0,
        1,
        2,
        3,
        7,
        1 << 23,
        (1 << 24) - 1,
        1 << 24,
        (1 << 24) + 1,
        (1 << 24) + 2,
        (1 << 24) + 3,
        (1 << 25) + 2,
        (1 << 25) + 6,
        123456789,
        4294967295,
        u64::MAX as u128,
        (1u128 << 100) + (1u128 << 76),
        (1u128 << 100) + (1u128 << 76) + 1,
        (1u128 << 100) + (3u128 << 76),
        340282346638528859811704183484516925440,
        340282356779733661637539395458142568447,
        340282356779733661637539395458142568448,
        u128::MAX - 1,
        u128::MAX,
    ];
    for n in cases {
        let expected: f32 = n.to_string().parse().unwrap();
        assert_eq!(to_single(n), expected.to_bits(), "{n}");
    }
    let mut n: u128 = 1;
    while n < u128::MAX / 7 {
        let expected: f32 = n.to_string().parse().unwrap();
        assert_eq!(to_single(n), expected.to_bits(), "{n}");
        assert_eq!(to_single(n), (n as f32).to_bits(), "{n}");
        n = n * 7 + 3;
    }
}

#[test]
fn long_runs_of_digits_give_infinity_or_their_number() {
    for text in [
        "0",
        "00000000000000000000000000000000000000000000000000000012",
        "16777217",
        "340282366920938463463374607431768211455",
        "340282366920938463463374607431768211456",
        "999999999999999999999999999999999999999999999999999999999999",
    ] {
        let chars: Vec<char> = text.chars().collect();
        let expected: f32 = text.parse().unwrap();
        assert_eq!(digits_to_single(&chars, 0, chars.len()), expected.to_bits(), "{text}");
    }
    let chars: Vec<char> = "ab123cd".chars().collect();
    assert_eq!(digits_to_single(&chars, 2, 5), 123f32.to_bits());
    assert_eq!(digits_to_single(&chars, 2, 2), 0);
}
