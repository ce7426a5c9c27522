use rlox::compiler::scanner::{lines_can_be_counted, Scanner};
use rlox::compiler::token::{Token, TokenType};
use rlox::compiler::ScanError;
use rlox::value::Value;

fn decode(text: &str) -> Value {
    Value::from_bits(text.parse::<f64>().expect("Invalid number").to_bits())
}

fn number(value: f64) -> TokenType {
    TokenType::Number(Value::from_bits(value.to_bits()))
}

fn scan_all(text: &str) -> Result<Vec<Token>, ScanError> {
    let text = text.to_string();
    Scanner::new(&text, decode).scan_up_to_eof()
}

fn kinds(text: &str) -> Vec<TokenType> {
    scan_all(text)
        .unwrap()
        .into_iter()
        .map(|token| token.token_type)
        .collect()
}

fn lines(text: &str) -> Vec<u32> {
    scan_all(text)
        .unwrap()
        .into_iter()
        .map(|token| token.line)
        .collect()
}

#[test]
fn test_scan_token() {
    let expected = vec![
        TokenType::LeftParen,
        TokenType::RightParen,
        TokenType::RightBrace,
        TokenType::LeftBrace,
        TokenType::Comma,
        TokenType::Literal("some_variable".to_string()),
        TokenType::Equal,
        TokenType::String("Hi :)".to_string()),
        TokenType::Minus,
        TokenType::Semicolon,
        TokenType::Comma,
        number(42.0),
        number(12.5),
        TokenType::Comma,
        TokenType::Literal("a".to_string()),
        TokenType::Semicolon,
        TokenType::Let,
        TokenType::Literal("b".to_string()),
        TokenType::Equal,
        number(5.0),
        TokenType::Star,
        number(20.0),
    ];

    let text = r#"()}{,some_variable = "Hi :)"-;, 42 12.5, a; let b = 5 * 20"#.to_string();
    let mut scanner = Scanner::new(&text, decode);

    for expected in expected {
        let tok = scanner.scan_token().unwrap();
        assert_eq!(tok.token_type, expected);
        assert_eq!(tok.line, 1)
    }
}

#[test]
fn test_string_interpolation() {
    let text = r#"let mut foo = 5; return "The number is ${foo}";"#.to_string();

    let expected = vec![
        TokenType::Let,
        TokenType::Mutable,
        TokenType::Literal("foo".to_string()),
        TokenType::Equal,
        number(5.0),
        TokenType::Semicolon,
        TokenType::Return,
        TokenType::String("The number is ${foo}".to_string()),
        TokenType::Semicolon,
    ];

    let mut scanner = Scanner::new(&text, decode);

    for expected in expected {
        let tok = scanner.scan_token().unwrap();
        assert_eq!(tok.token_type, expected);
        assert_eq!(tok.line, 1)
    }
}

#[test]
fn test_scanner_comment() {
    let text = "// This is a comment\n()".to_string();
    let mut scanner = Scanner::new(&text, decode);
    let tok = scanner.scan_token().unwrap();
    assert_eq!(tok.token_type, TokenType::LeftParen);
    assert_eq!(tok.line, 2);

    let tok = scanner.scan_token().unwrap();
    assert_eq!(tok.token_type, TokenType::RightParen);
    assert_eq!(tok.line, 2);

    let tok = scanner.scan_token().unwrap();
    assert_eq!(tok.token_type, TokenType::Eof);
    assert_eq!(tok.line, 2);
}

#[test]
fn test_multiline_comment() {
    let text =
        "(/* This\n\n is /* \nDepth 2\n\r\t\t\t\t\t */ a\n\n comment\n\n */()".to_string();
    let mut scanner = Scanner::new(&text, decode);
    let tok = scanner.scan_token().unwrap();
    assert_eq!(tok.token_type, TokenType::LeftParen);
    assert_eq!(tok.line, 1);

    let tok = scanner.scan_token().unwrap();
    assert_eq!(tok.token_type, TokenType::LeftParen);
    assert_eq!(tok.line, 9);

    let tok = scanner.scan_token().unwrap();
    assert_eq!(tok.token_type, TokenType::RightParen);
    assert_eq!(tok.line, 9);

    let tok = scanner.scan_token().unwrap();
    assert_eq!(tok.token_type, TokenType::Eof);
    assert_eq!(tok.line, 9);
}

#[test]
fn end_of_input_is_reported_again_and_again() {
    let text = "".to_string();
    let mut scanner = Scanner::new(&text, decode);
    for _ in 0..3 {
        let tok = scanner.scan_token().unwrap();
        assert_eq!(tok.token_type, TokenType::Eof);
        assert_eq!(tok.line, 1);
    }
}

#[test]
fn scan_up_to_eof_leaves_the_end_marker_out() {
    assert_eq!(kinds(""), vec![]);
    assert_eq!(kinds("  \t\r\n "), vec![]);
    assert_eq!(kinds("( )"), vec![TokenType::LeftParen, TokenType::RightParen]);
}

#[test]
fn scan_up_to_eof_starts_where_the_scanner_stands() {
    let text = "1 2 3".to_string();
    let mut scanner = Scanner::new(&text, decode);
    assert_eq!(scanner.scan_token().unwrap().token_type, number(1.0));
    let rest: Vec<TokenType> = scanner
        .scan_up_to_eof()
        .unwrap()
        .into_iter()
        .map(|token| token.token_type)
        .collect();
    assert_eq!(rest, vec![number(2.0), number(3.0)]);
}

#[test]
fn single_character_tokens() {
    assert_eq!(
        kinds("(){},.-+;*/"),
        vec![
            TokenType::LeftParen,
            TokenType::RightParen,
            TokenType::LeftBrace,
            TokenType::RightBrace,
            TokenType::Comma,
            TokenType::Dot,
            TokenType::Minus,
            TokenType::Plus,
            TokenType::Semicolon,
            TokenType::Star,
            TokenType::Slash,
        ]
    );
}

#[test]
fn two_character_tokens_take_the_second_character_only_when_it_matches() {
    assert_eq!(
        kinds("! != = == < <= > >="),
        vec![
            TokenType::Bang,
            TokenType::BangEqual,
            TokenType::Equal,
            TokenType::EqualEqual,
            TokenType::Less,
            TokenType::LessEqual,
            TokenType::Greater,
            TokenType::GreaterEqual,
        ]
    );
    assert_eq!(
        kinds("!a"),
        vec![TokenType::Bang, TokenType::Literal("a".to_string())]
    );
    assert_eq!(kinds("<1"), vec![TokenType::Less, number(1.0)]);
    assert_eq!(
        kinds("==="),
        vec![TokenType::EqualEqual, TokenType::Equal]
    );
    assert_eq!(kinds("!"), vec![TokenType::Bang]);
}

#[test]
fn a_slash_does_not_swallow_what_follows() {
    assert_eq!(
        kinds("6/3"),
        vec![number(6.0), TokenType::Slash, number(3.0)]
    );
    assert_eq!(kinds("/"), vec![TokenType::Slash]);
    assert_eq!(kinds("/ /"), vec![TokenType::Slash, TokenType::Slash]);
}

#[test]
fn every_keyword_has_its_kind() {
    assert_eq!(
        kinds("and class else false for fn if nil or print return super self true let mut while"),
        vec![
            TokenType::And,
            TokenType::Class,
            TokenType::Else,
            TokenType::False,
            TokenType::For,
            TokenType::Function,
            TokenType::If,
            TokenType::Nil,
            TokenType::Or,
            TokenType::Print,
            TokenType::Return,
            TokenType::Super,
            TokenType::This,
            TokenType::True,
            TokenType::Let,
            TokenType::Mutable,
            TokenType::While,
        ]
    );
}

#[test]
fn words_that_only_look_like_keywords_are_identifiers() {
    assert_eq!(
        kinds("And lets _ _while while_ fn1 x_1"),
        vec![
            TokenType::Literal("And".to_string()),
            TokenType::Literal("lets".to_string()),
            TokenType::Literal("_".to_string()),
            TokenType::Literal("_while".to_string()),
            TokenType::Literal("while_".to_string()),
            TokenType::Literal("fn1".to_string()),
            TokenType::Literal("x_1".to_string()),
        ]
    );
}

#[test]
fn identifiers_take_letters_and_digits_of_any_script() {
    assert_eq!(
        kinds("été+größe2 λ٣"),
        vec![
            TokenType::Literal("été".to_string()),
            TokenType::Plus,
            TokenType::Literal("größe2".to_string()),
            TokenType::Literal("λ٣".to_string()),
        ]
    );
}

#[test]
fn numbers_take_digits_and_at_most_one_fraction() {
    assert_eq!(kinds("0"), vec![number(0.0)]);
    assert_eq!(kinds("007"), vec![number(7.0)]);
    assert_eq!(kinds("3.25"), vec![number(3.25)]);
    assert_eq!(kinds("1."), vec![number(1.0)]);
    assert_eq!(
        kinds("1.2.3"),
        vec![number(1.2), TokenType::Dot, number(3.0)]
    );
    assert_eq!(
        kinds("1..2"),
        vec![number(1.0), TokenType::Dot, number(2.0)]
    );
    assert_eq!(kinds(".5"), vec![TokenType::Dot, number(5.0)]);
    assert_eq!(
        kinds("12abc"),
        vec![number(12.0), TokenType::Literal("abc".to_string())]
    );
    assert_eq!(
        kinds("1e5"),
        vec![number(1.0), TokenType::Literal("e5".to_string())]
    );
}

#[test]
fn the_decoder_decides_the_value_of_a_number() {
    let text = "12.5 7".to_string();
    let seen = |text: &str| Value::from_bits(text.len() as u64);
    let mut scanner = Scanner::new(&text, seen);
    assert_eq!(
        scanner.scan_token().unwrap().token_type,
        TokenType::Number(Value::from_bits(4))
    );
    assert_eq!(
        scanner.scan_token().unwrap().token_type,
        TokenType::Number(Value::from_bits(1))
    );
}

#[test]
fn strings_are_taken_as_they_stand() {
    assert_eq!(kinds(r#""""#), vec![TokenType::String("".to_string())]);
    assert_eq!(
        kinds(r#""a\" b"""#),
        vec![
            TokenType::String("a\\".to_string()),
            TokenType::Literal("b".to_string()),
            TokenType::String("".to_string()),
        ]
    );
    assert_eq!(
        kinds("\"// no comment /* here */\""),
        vec![TokenType::String("// no comment /* here */".to_string())]
    );
}

#[test]
fn newlines_count_everywhere() {
    assert_eq!(lines("1\n2\n\n3"), vec![1, 2, 4]);
    assert_eq!(lines("\"a\nb\" 1"), vec![2, 2]);
    assert_eq!(lines("/* a\nb */ 1 // c\n2"), vec![2, 3]);
    assert_eq!(lines("1 // c\r\n2"), vec![1, 2]);
}

#[test]
fn a_line_comment_ends_before_the_newline() {
    assert_eq!(kinds("1 // 2 3\n4"), vec![number(1.0), number(4.0)]);
    assert_eq!(kinds("1 // 2 3"), vec![number(1.0)]);
    assert_eq!(kinds("//"), vec![]);
}

#[test]
fn an_invalid_character_is_an_error() {
    assert_eq!(scan_all("1 @ 2").unwrap_err(), ScanError::InvalidToken('@'));
    assert_eq!(scan_all("#").unwrap_err(), ScanError::InvalidToken('#'));
    assert_eq!(scan_all("a ? b").unwrap_err(), ScanError::InvalidToken('?'));
    let text = "@(".to_string();
    let mut scanner = Scanner::new(&text, decode);
    assert_eq!(scanner.scan_token().unwrap_err(), ScanError::InvalidToken('@'));
    assert_eq!(scanner.scan_token().unwrap().token_type, TokenType::LeftParen);
}

#[test]
fn an_open_string_is_an_error_with_the_line_of_the_end() {
    assert_eq!(
        scan_all("\"abc").unwrap_err(),
        ScanError::UnterminatedString(1)
    );
    assert_eq!(
        scan_all("1\n\"abc\n\n").unwrap_err(),
        ScanError::UnterminatedString(4)
    );
    assert_eq!(scan_all("\"").unwrap_err(), ScanError::UnterminatedString(1));
}

#[test]
fn an_open_comment_is_an_error_with_the_line_of_the_end() {
    assert_eq!(
        scan_all("/* abc").unwrap_err(),
        ScanError::UnterminatedComment(1)
    );
    assert_eq!(
        scan_all("1 /* a\nb\nc").unwrap_err(),
        ScanError::UnterminatedComment(3)
    );
    assert_eq!(scan_all("/*/").unwrap_err(), ScanError::UnterminatedComment(1));
}

fn nested(opens: usize, closes: usize) -> String {
    let mut text = String::new();
    for _ in 0..opens {
        text.push_str("/* x ");
    }
    for _ in 0..closes {
        text.push_str(" y */");
    }
    text.push_str(" 1");
    text
}

#[test]
fn every_nested_comment_needs_its_own_close() {
    for depth in 1..6 {
        assert_eq!(kinds(&nested(depth, depth)), vec![number(1.0)]);
        for closes in 0..depth {
            assert_eq!(
                scan_all(&nested(depth, closes)).unwrap_err(),
                ScanError::UnterminatedComment(1)
            );
        }
    }
    assert_eq!(
        kinds("/* a /* b */ c */ 1 /* d */"),
        vec![number(1.0)]
    );
    assert_eq!(
        kinds("/* a */ */"),
        vec![TokenType::Star, TokenType::Slash]
    );
}

#[test]
fn consume_multi_line_comment_reads_to_the_matching_close() {
    let text = " a /* b */ c */(".to_string();
    let mut scanner = Scanner::new(&text, decode);
    assert_eq!(scanner.consume_multi_line_comment(), Ok(()));
    assert_eq!(scanner.scan_token().unwrap().token_type, TokenType::LeftParen);

    let text = " a /* b */ c\n".to_string();
    let mut scanner = Scanner::new(&text, decode);
    assert_eq!(
        scanner.consume_multi_line_comment(),
        Err(ScanError::UnterminatedComment(2))
    );
}

#[test]
fn consume_while_stops_at_the_first_character_that_fails() {
    let text = "aaab".to_string();
    let mut scanner = Scanner::new(&text, decode);
    assert_eq!(scanner.consume_while(|c| *c == 'a'), vec!['a', 'a', 'a']);
    assert_eq!(scanner.consume_while(|c| *c == 'a'), vec![]);
    assert_eq!(scanner.consume_while(|c| *c != 'x'), vec!['b']);
    assert_eq!(scanner.consume_while(|_| true), vec![]);
}

#[test]
fn scan_errors_have_their_messages() {
    assert_eq!(ScanError::InvalidToken('@').to_string(), "Invalid token: @");
    assert_eq!(
        ScanError::UnterminatedComment(12).to_string(),
        "Unterminated multi-line comment on line 12"
    );
    assert_eq!(
        ScanError::UnterminatedString(4294967295).to_string(),
        "Unterminated string on line 4294967295"
    );
    assert_eq!(
        ScanError::UnterminatedString(0).to_string(),
        "Unterminated string on line 0"
    );
}

#[test]
fn the_lines_of_a_source_can_be_counted() {
    assert!(lines_can_be_counted(&"".to_string()));
    assert!(lines_can_be_counted(&"1 +\n2\n\n".to_string()));
}

#[test]
fn scan_number_reads_on_from_the_first_character() {
    let text = "12.5+".to_string();
    let mut scanner = Scanner::new(&text, decode);
    assert_eq!(scanner.consume_while(|c| *c == '1'), vec!['1']);
    let token = scanner.scan_number('1').unwrap();
    assert_eq!(token.token_type, number(12.5));
    assert_eq!(token.line, 1);
    assert_eq!(scanner.scan_token().unwrap().token_type, TokenType::Plus);
}

#[test]
fn scan_identifier_reads_on_from_the_first_character() {
    let text = "while_1 let".to_string();
    let mut scanner = Scanner::new(&text, decode);
    assert_eq!(scanner.consume_while(|c| *c == 'w'), vec!['w']);
    let token = scanner.scan_identifier('w').unwrap();
    assert_eq!(token.token_type, TokenType::Literal("while_1".to_string()));
    assert_eq!(scanner.consume_while(|c| *c == ' ' || *c == 'l'), vec![' ', 'l']);
    assert_eq!(scanner.scan_identifier('l').unwrap().token_type, TokenType::Let);
}

#[test]
fn scan_string_reads_on_behind_the_opening_quote() {
    let text = "\"a\nb\" \"c".to_string();
    let mut scanner = Scanner::new(&text, decode);
    assert_eq!(scanner.consume_while(|c| *c == '"'), vec!['"']);
    let token = scanner.scan_string().unwrap();
    assert_eq!(token.token_type, TokenType::String("a\nb".to_string()));
    assert_eq!(token.line, 2);
    assert_eq!(scanner.consume_while(|c| *c == ' ' || *c == '"'), vec![' ', '"']);
    assert_eq!(scanner.scan_string().unwrap_err(), ScanError::UnterminatedString(2));
}

#[test]
fn choose_next_reads_the_expected_character_and_no_other() {
    let text = "=a".to_string();
    let mut scanner = Scanner::new(&text, decode);
    let token = scanner.choose_next('=', TokenType::BangEqual, TokenType::Bang);
    assert_eq!(token.token_type, TokenType::BangEqual);
    let token = scanner.choose_next('=', TokenType::BangEqual, TokenType::Bang);
    assert_eq!(token.token_type, TokenType::Bang);
    assert_eq!(
        scanner.scan_token().unwrap().token_type,
        TokenType::Literal("a".to_string())
    );
    let token = scanner.make_token(TokenType::Comma);
    assert_eq!(token.token_type, TokenType::Comma);
    assert_eq!(token.line, 1);
}
