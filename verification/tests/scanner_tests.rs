use chef::lox::scanner::Scanner;
use chef::lox::token::{Token, TokenKind};

fn scan_all(source: &str) -> Vec<(TokenKind, String, usize)> {
    let mut scanner = Scanner::new(source);
    let mut tokens = Vec::new();
    loop {
        let token = scanner.scan_token();
        tokens.push((token.kind, token.lexeme.to_string(), token.line));
        if token.kind == TokenKind::Eof {
            break;
        }
    }
    tokens
}

fn kinds(source: &str) -> Vec<TokenKind> {
    scan_all(source).into_iter().map(|t| t.0).collect()
}

#[test]
fn lox_scans_punctuation() {
    assert_eq!(
        kinds("(){};,.-+/*\0"),
        vec![
            TokenKind::LeftParen,
            TokenKind::RightParen,
            TokenKind::LeftBrace,
            TokenKind::RightBrace,
            TokenKind::Semicolon,
            TokenKind::Comma,
            TokenKind::Dot,
            TokenKind::Minus,
            TokenKind::Plus,
            TokenKind::Slash,
            TokenKind::Star,
            TokenKind::Eof,
        ]
    );
}

#[test]
fn lox_scans_one_and_two_character_operators() {
    assert_eq!(
        kinds("! != = == < <= > >=\0"),
        vec![
            TokenKind::Bang,
            TokenKind::BangEqual,
            TokenKind::Equal,
            TokenKind::EqualEqual,
            TokenKind::Less,
            TokenKind::LessEqual,
            TokenKind::Greater,
            TokenKind::GreaterEqual,
            TokenKind::Eof,
        ]
    );
}

#[test]
fn lox_scans_keywords_and_identifiers() {
    let tokens = scan_all(
        "pairs_with dish needs_more_salt bland stir recipe taste missing_ingredient alternatively garnish plate_up heres_one_i_made_earlier this_dish delicious ingredient mix_while pancake\0",
    );
    let expected = vec![
        TokenKind::And,
        TokenKind::Class,
        TokenKind::Else,
        TokenKind::False,
        TokenKind::For,
        TokenKind::Fun,
        TokenKind::If,
        TokenKind::Nil,
        TokenKind::Or,
        TokenKind::Print,
        TokenKind::Return,
        TokenKind::Super,
        TokenKind::This,
        TokenKind::True,
        TokenKind::Var,
        TokenKind::While,
        TokenKind::Identifier,
        TokenKind::Eof,
    ];
    assert_eq!(tokens.iter().map(|t| t.0).collect::<Vec<_>>(), expected);
    assert_eq!(tokens[16].1, "pancake");
}

#[test]
fn lox_scans_numbers() {
    let tokens = scan_all("12 3.25 7. 0.5\0");
    assert_eq!(tokens[0], (TokenKind::Number, "12".to_string(), 1));
    assert_eq!(tokens[1], (TokenKind::Number, "3.25".to_string(), 1));
    assert_eq!(tokens[2], (TokenKind::Number, "7".to_string(), 1));
    assert_eq!(tokens[3], (TokenKind::Dot, ".".to_string(), 1));
    assert_eq!(tokens[4], (TokenKind::Number, "0.5".to_string(), 1));
}

#[test]
fn lox_scans_strings_across_lines() {
    let tokens = scan_all("\"a\nb\" x\0");
    assert_eq!(tokens[0], (TokenKind::String, "\"a\nb\"".to_string(), 2));
    assert_eq!(tokens[1], (TokenKind::Identifier, "x".to_string(), 2));
}

#[test]
fn lox_reports_unterminated_string() {
    let tokens = scan_all("\"abc\0");
    assert_eq!(tokens[0], (TokenKind::Error, "Unterminated string.".to_string(), 1));
    assert_eq!(tokens[1].0, TokenKind::Eof);
}

#[test]
fn lox_skips_whitespace_and_comments_counting_lines() {
    let tokens = scan_all("  // a comment\n\t\r\n x // trailing\0");
    assert_eq!(tokens[0], (TokenKind::Identifier, "x".to_string(), 3));
    assert_eq!(tokens[1], (TokenKind::Eof, "".to_string(), 3));
}

#[test]
fn lox_end_of_file_repeats() {
    let mut scanner = Scanner::new("x\0");
    assert_eq!(scanner.scan_token().kind, TokenKind::Identifier);
    for _ in 0..3 {
        let token = scanner.scan_token();
        assert_eq!(token.kind, TokenKind::Eof);
        assert_eq!(token.lexeme, "");
    }
}

#[test]
fn lox_text_next_to_non_ascii() {
    let tokens = scan_all("\"héllo\" x\0");
    assert_eq!(tokens[0], (TokenKind::String, "\"héllo\"".to_string(), 1));
}

#[test]
fn lox_initial_token() {
    let token: Token = Token::initial();
    assert_eq!(token.kind, TokenKind::Error);
    assert_eq!(token.lexeme, "Found initial token.");
    assert_eq!(token.line, 1);
}

