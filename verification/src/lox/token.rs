use vstd::prelude::*;

verus! {

/// The kinds of token of the object-oriented dialect.
#[derive(Debug, PartialEq, Eq, Clone, Copy, Hash, Structural)]
pub enum TokenKind {
    // Single-character tokens.
    LeftParen,
    RightParen,
    LeftBrace,
    RightBrace,
    Comma,
    Dot,
    Minus,
    Plus,
    Semicolon,
    Slash,
    Star,
    // One or two character tokens.
    Bang,
    BangEqual,
    Equal,
    EqualEqual,
    Greater,
    GreaterEqual,
    Less,
    LessEqual,
    // Literals.
    Identifier,
    String,
    Number,
    // Keywords.
    And,
    Class,
    Else,
    False,
    For,
    Fun,
    If,
    Nil,
    Or,
    Print,
    Return,
    Super,
    This,
    True,
    Var,
    While,
    // Other.
    Error,
    Eof,
}

/// A token: its kind, the text it was scanned from (or an error message), and its line.
#[derive(Debug, Clone, Copy)]
pub struct Token<'source> {
    pub kind: TokenKind,
    pub lexeme: &'source str,
    pub line: usize,
}

impl<'source> Token<'source> {
    /// The placeholder token a parser holds before it has scanned anything.
    pub fn initial() -> (token: Token<'source>)
        ensures
            token.kind == TokenKind::Error,
            token.lexeme@ == "Found initial token."@,
            token.line == 1,
    {
        Token { kind: TokenKind::Error, lexeme: "Found initial token.", line: 1 }
    }
}

} // verus!
