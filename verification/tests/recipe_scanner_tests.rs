use chef::scanner::{Scanner, Token, TokenKind};

fn scan_all(source: &str) -> Vec<(TokenKind, String, usize)> {
    let mut scanner = Scanner::new(source);
    let mut tokens = Vec::new();
    loop {
        let token = scanner.scan_token();
        tokens.push((token.kind, token.lexeme.to_string(), token.line));
        if token.kind == TokenKind::Eof {
            break;
        }
    }
    tokens
}

#[test]
fn recipe_scans_punctuation() {
    let kinds: Vec<TokenKind> = scan_all(";:,.-/\0").into_iter().map(|t| t.0).collect();
    assert_eq!(
        kinds,
        vec![
            TokenKind::Semicolon,
            TokenKind::Colon,
            TokenKind::Comma,
            TokenKind::Dot,
            TokenKind::Hyphen,
            TokenKind::Slash,
            TokenKind::Eof,
        ]
    );
}

#[test]
fn recipe_scans_words() {
    let kinds: Vec<TokenKind> = scan_all(
        "Recipe Ingredients Utensils Steps egg flour sugar milk chocolate banana whisk bake cook with and compliments plus now subtract check combine otherwise false nil or taste do serve true while finish pancake\0",
    )
    .into_iter()
    .map(|t| t.0)
    .collect();
    assert_eq!(
        kinds,
        vec![
            TokenKind::Recipe,
            TokenKind::Ingredients,
            TokenKind::Utensils,
            TokenKind::Steps,
            TokenKind::VarIdent,
            TokenKind::VarIdent,
            TokenKind::VarIdent,
            TokenKind::VarIdent,
            TokenKind::VarIdent,
            TokenKind::VarIdent,
            TokenKind::FunIdent,
            TokenKind::FunIdent,
            TokenKind::FunIdent,
            TokenKind::LeftParen,
            TokenKind::ParameterAnd,
            TokenKind::And,
            TokenKind::Plus,
            TokenKind::BareFunctionInvocation,
            TokenKind::Minus,
            TokenKind::If,
            TokenKind::Star,
            TokenKind::Else,
            TokenKind::False,
            TokenKind::Nil,
            TokenKind::Or,
            TokenKind::Print,
            TokenKind::LeftBrace,
            TokenKind::Return,
            TokenKind::True,
            TokenKind::While,
            TokenKind::RightBrace,
            TokenKind::Ident,
            TokenKind::Eof,
        ]
    );
}

#[test]
fn recipe_reports_invalid_characters() {
    let tokens = scan_all("+ x\0");
    assert_eq!(tokens[0], (TokenKind::Error, "Invalid character".to_string(), 1));
    assert_eq!(tokens[1], (TokenKind::Ident, "x".to_string(), 1));
}

#[test]
fn recipe_invalid_multibyte_character_is_skipped_byte_by_byte() {
    let tokens = scan_all("é x\0");
    assert_eq!(tokens[0].0, TokenKind::Error);
    assert_eq!(tokens[1].0, TokenKind::Error);
    assert_eq!(tokens[2], (TokenKind::Ident, "x".to_string(), 1));
}

#[test]
fn recipe_scans_string_number_and_comparisons() {
    let tokens = scan_all("\"Pancakes\"\n\n2.5 >= 1 != 0\0");
    assert_eq!(tokens[0], (TokenKind::String, "\"Pancakes\"".to_string(), 1));
    assert_eq!(tokens[1], (TokenKind::Number, "2.5".to_string(), 3));
    assert_eq!(tokens[2].0, TokenKind::GreaterEqual);
    assert_eq!(tokens[4].0, TokenKind::BangEqual);
}

#[test]
fn recipe_token_new() {
    let token = Token::new("egg", 4, TokenKind::VarIdent);
    assert_eq!(token.kind, TokenKind::VarIdent);
    assert_eq!(token.lexeme, "egg");
    assert_eq!(token.line, 4);
}
