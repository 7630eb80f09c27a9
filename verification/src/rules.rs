use vstd::prelude::*;

use crate::lox::token::TokenKind;

verus! {

/// How tightly an operator binds, from loosest to tightest.
#[derive(Debug, PartialEq, Eq, PartialOrd, Ord, Clone, Copy, Structural)]
pub enum Precedence {
    Lowest,
    Assignment,  // =
    Or,  // or
    And,  // and
    Equality,  // == !=
    Comparison,  // < > <= >=
    Term,  // + -
    Factor,  // * /
    Unary,  // ! -
    Call,  // . ()
    Primary,
}

/// Which parsing routine handles a token in prefix or infix position.
#[derive(Debug, PartialEq, Eq, Clone, Copy, Structural)]
pub enum ParseFunctionKind {
    Nothing,
    Grouping,
    Unary,
    Binary,
    Number,
    Literal,
    String,
    Variable,
    And,
    Or,
    Call,
}

/// How the parser treats a token: in prefix position, in infix position, and
/// how tightly it binds as an infix operator.
pub struct ParseRule {
    pub prefix: ParseFunctionKind,
    pub infix: ParseFunctionKind,
    pub precedence: Precedence,
}

/// The rank of a precedence level, the loosest being zero.
pub open spec fn rank(p: Precedence) -> nat {
    match p {
        Precedence::Lowest => 0,
        Precedence::Assignment => 1,
        Precedence::Or => 2,
        Precedence::And => 3,
        Precedence::Equality => 4,
        Precedence::Comparison => 5,
        Precedence::Term => 6,
        Precedence::Factor => 7,
        Precedence::Unary => 8,
        Precedence::Call => 9,
        Precedence::Primary => 10,
    }
}

/// The routine that parses an expression starting with a token of kind `kind`.
pub open spec fn prefix_rule(kind: TokenKind) -> ParseFunctionKind {
    match kind {
        TokenKind::LeftParen => ParseFunctionKind::Grouping,
        TokenKind::Minus | TokenKind::Bang => ParseFunctionKind::Unary,
        TokenKind::Identifier => ParseFunctionKind::Variable,
        TokenKind::String => ParseFunctionKind::String,
        TokenKind::Number => ParseFunctionKind::Number,
        TokenKind::False | TokenKind::Nil | TokenKind::True => ParseFunctionKind::Literal,
        _ => ParseFunctionKind::Nothing,
    }
}

/// The routine that continues an expression with an operator token of kind `kind`.
pub open spec fn infix_rule(kind: TokenKind) -> ParseFunctionKind {
    match kind {
        TokenKind::LeftParen => ParseFunctionKind::Call,
        TokenKind::Minus | TokenKind::Plus | TokenKind::Slash | TokenKind::Star
        | TokenKind::BangEqual | TokenKind::EqualEqual | TokenKind::Greater
        | TokenKind::GreaterEqual | TokenKind::Less | TokenKind::LessEqual => ParseFunctionKind::Binary,
        TokenKind::And => ParseFunctionKind::And,
        TokenKind::Or => ParseFunctionKind::Or,
        _ => ParseFunctionKind::Nothing,
    }
}

/// How tightly a token of kind `kind` binds as an infix operator.
pub open spec fn infix_precedence(kind: TokenKind) -> Precedence {
    match kind {
        TokenKind::LeftParen => Precedence::Call,
        TokenKind::Minus | TokenKind::Plus => Precedence::Term,
        TokenKind::Slash | TokenKind::Star => Precedence::Factor,
        TokenKind::BangEqual | TokenKind::EqualEqual => Precedence::Equality,
        TokenKind::Greater | TokenKind::GreaterEqual | TokenKind::Less
        | TokenKind::LessEqual => Precedence::Comparison,
        TokenKind::And => Precedence::And,
        TokenKind::Or => Precedence::Or,
        _ => Precedence::Lowest,
    }
}

impl Precedence {
    /// The next tighter level; there is none above `Primary`.
    pub fn next(&self) -> (p: Precedence)
        requires
            *self != Precedence::Primary,
        ensures
            rank(p) == rank(*self) + 1,
    {
        match self {
            Precedence::Lowest => Precedence::Assignment,
            Precedence::Assignment => Precedence::Or,
            Precedence::Or => Precedence::And,
            Precedence::And => Precedence::Equality,
            Precedence::Equality => Precedence::Comparison,
            Precedence::Comparison => Precedence::Term,
            Precedence::Term => Precedence::Factor,
            Precedence::Factor => Precedence::Unary,
            Precedence::Unary => Precedence::Call,
            Precedence::Call => Precedence::Primary,
            Precedence::Primary => {
                proof {
                    assert(false);
                }
                Precedence::Primary
            },
        }
    }

    /// The parse rule for tokens of kind `token_kind`.
    pub fn get_rule(token_kind: TokenKind) -> (rule: ParseRule)
        ensures
            rule.prefix == prefix_rule(token_kind),
            rule.infix == infix_rule(token_kind),
            rule.precedence == infix_precedence(token_kind),
    {
        match token_kind {
            TokenKind::LeftParen => ParseRule {
                prefix: ParseFunctionKind::Grouping,
                infix: ParseFunctionKind::Call,
                precedence: Precedence::Call,
            },
            TokenKind::RightParen => ParseRule {
                prefix: ParseFunctionKind::Nothing,
                infix: ParseFunctionKind::Nothing,
                precedence: Precedence::Lowest,
            },
            TokenKind::LeftBrace => ParseRule {
                prefix: ParseFunctionKind::Nothing,
                infix: ParseFunctionKind::Nothing,
                precedence: Precedence::Lowest,
            },
            TokenKind::RightBrace => ParseRule {
                prefix: ParseFunctionKind::Nothing,
                infix: ParseFunctionKind::Nothing,
                precedence: Precedence::Lowest,
            },
            TokenKind::Comma => ParseRule {
                prefix: ParseFunctionKind::Nothing,
                infix: ParseFunctionKind::Nothing,
                precedence: Precedence::Lowest,
            },
            TokenKind::Dot => ParseRule {
                prefix: ParseFunctionKind::Nothing,
                infix: ParseFunctionKind::Nothing,
                precedence: Precedence::Lowest,
            },
            TokenKind::Minus => ParseRule {
                prefix: ParseFunctionKind::Unary,
                infix: ParseFunctionKind::Binary,
                precedence: Precedence::Term,
            },
            TokenKind::Plus => ParseRule {
                prefix: ParseFunctionKind::Nothing,
                infix: ParseFunctionKind::Binary,
                precedence: Precedence::Term,
            },
            TokenKind::Semicolon => ParseRule {
                prefix: ParseFunctionKind::Nothing,
                infix: ParseFunctionKind::Nothing,
                precedence: Precedence::Lowest,
            },
            TokenKind::Slash => ParseRule {
                prefix: ParseFunctionKind::Nothing,
                infix: ParseFunctionKind::Binary,
                precedence: Precedence::Factor,
            },
            TokenKind::Star => ParseRule {
                prefix: ParseFunctionKind::Nothing,
                infix: ParseFunctionKind::Binary,
                precedence: Precedence::Factor,
            },
            TokenKind::Bang => ParseRule {
                prefix: ParseFunctionKind::Unary,
                infix: ParseFunctionKind::Nothing,
                precedence: Precedence::Lowest,
            },
            TokenKind::BangEqual => ParseRule {
                prefix: ParseFunctionKind::Nothing,
                infix: ParseFunctionKind::Binary,
                precedence: Precedence::Equality,
            },
            TokenKind::Equal => ParseRule {
                prefix: ParseFunctionKind::Nothing,
                infix: ParseFunctionKind::Nothing,
                precedence: Precedence::Lowest,
            },
            TokenKind::EqualEqual => ParseRule {
                prefix: ParseFunctionKind::Nothing,
                infix: ParseFunctionKind::Binary,
                precedence: Precedence::Equality,
            },
            TokenKind::Greater => ParseRule {
                prefix: ParseFunctionKind::Nothing,
                infix: ParseFunctionKind::Binary,
                precedence: Precedence::Comparison,
            },
            TokenKind::GreaterEqual => ParseRule {
                prefix: ParseFunctionKind::Nothing,
                infix: ParseFunctionKind::Binary,
                precedence: Precedence::Comparison,
            },
            TokenKind::Less => ParseRule {
                prefix: ParseFunctionKind::Nothing,
                infix: ParseFunctionKind::Binary,
                precedence: Precedence::Comparison,
            },
            TokenKind::LessEqual => ParseRule {
                prefix: ParseFunctionKind::Nothing,
                infix: ParseFunctionKind::Binary,
                precedence: Precedence::Comparison,
            },
            TokenKind::Identifier => ParseRule {
                prefix: ParseFunctionKind::Variable,
                infix: ParseFunctionKind::Nothing,
                precedence: Precedence::Lowest,
            },
            TokenKind::String => ParseRule {
                prefix: ParseFunctionKind::String,
                infix: ParseFunctionKind::Nothing,
                precedence: Precedence::Lowest,
            },
            TokenKind::Number => ParseRule {
                prefix: ParseFunctionKind::Number,
                infix: ParseFunctionKind::Nothing,
                precedence: Precedence::Lowest,
            },
            TokenKind::And => ParseRule {
                prefix: ParseFunctionKind::Nothing,
                infix: ParseFunctionKind::And,
                precedence: Precedence::And,
            },
            TokenKind::Class => ParseRule {
                prefix: ParseFunctionKind::Nothing,
                infix: ParseFunctionKind::Nothing,
                precedence: Precedence::Lowest,
            },
            TokenKind::Else => ParseRule {
                prefix: ParseFunctionKind::Nothing,
                infix: ParseFunctionKind::Nothing,
                precedence: Precedence::Lowest,
            },
            TokenKind::False => ParseRule {
                prefix: ParseFunctionKind::Literal,
                infix: ParseFunctionKind::Nothing,
                precedence: Precedence::Lowest,
            },
            TokenKind::For => ParseRule {
                prefix: ParseFunctionKind::Nothing,
                infix: ParseFunctionKind::Nothing,
                precedence: Precedence::Lowest,
            },
            TokenKind::Fun => ParseRule {
                prefix: ParseFunctionKind::Nothing,
                infix: ParseFunctionKind::Nothing,
                precedence: Precedence::Lowest,
            },
            TokenKind::If => ParseRule {
                prefix: ParseFunctionKind::Nothing,
                infix: ParseFunctionKind::Nothing,
                precedence: Precedence::Lowest,
            },
            TokenKind::Nil => ParseRule {
                prefix: ParseFunctionKind::Literal,
                infix: ParseFunctionKind::Nothing,
                precedence: Precedence::Lowest,
            },
            TokenKind::Or => ParseRule {
                prefix: ParseFunctionKind::Nothing,
                infix: ParseFunctionKind::Or,
                precedence: Precedence::Or,
            },
            TokenKind::Print => ParseRule {
                prefix: ParseFunctionKind::Nothing,
                infix: ParseFunctionKind::Nothing,
                precedence: Precedence::Lowest,
            },
            TokenKind::Return => ParseRule {
                prefix: ParseFunctionKind::Nothing,
                infix: ParseFunctionKind::Nothing,
                precedence: Precedence::Lowest,
            },
            TokenKind::Super => ParseRule {
                prefix: ParseFunctionKind::Nothing,
                infix: ParseFunctionKind::Nothing,
                precedence: Precedence::Lowest,
            },
            TokenKind::This => ParseRule {
                prefix: ParseFunctionKind::Nothing,
                infix: ParseFunctionKind::Nothing,
                precedence: Precedence::Lowest,
            },
            TokenKind::True => ParseRule {
                prefix: ParseFunctionKind::Literal,
                infix: ParseFunctionKind::Nothing,
                precedence: Precedence::Lowest,
            },
            TokenKind::Var => ParseRule {
                prefix: ParseFunctionKind::Nothing,
                infix: ParseFunctionKind::Nothing,
                precedence: Precedence::Lowest,
            },
            TokenKind::While => ParseRule {
                prefix: ParseFunctionKind::Nothing,
                infix: ParseFunctionKind::Nothing,
                precedence: Precedence::Lowest,
            },
            TokenKind::Error => ParseRule {
                prefix: ParseFunctionKind::Nothing,
                infix: ParseFunctionKind::Nothing,
                precedence: Precedence::Lowest,
            },
            TokenKind::Eof => ParseRule {
                prefix: ParseFunctionKind::Nothing,
                infix: ParseFunctionKind::Nothing,
                precedence: Precedence::Lowest,
            },
        }
    }
}

/// Every token with an infix routine binds at least as tightly as `or`, and
/// every token without one binds at the lowest level, so a loop that parses
/// operators while they bind at least as tightly as some level above the lowest
/// only ever meets tokens it can parse.
pub proof fn law_infix_tokens_bind(kind: TokenKind)
    ensures
        (infix_rule(kind) == ParseFunctionKind::Nothing) <==> (infix_precedence(kind)
            == Precedence::Lowest),
        infix_rule(kind) != ParseFunctionKind::Nothing ==> rank(infix_precedence(kind)) >= 2,
{
}

/// Stepping to the next level never passes `Primary`, and the ranks of the
/// levels are distinct, so `next` walks the levels in order.
pub proof fn law_ranks_are_distinct(p: Precedence, q: Precedence)
    ensures
        rank(p) == rank(q) <==> p == q,
        rank(p) <= 10,
{
}

} // verus!
