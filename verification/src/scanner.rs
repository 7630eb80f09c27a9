use vstd::prelude::*;
use vstd::string::*;
use vstd::utf8::*;

use crate::lexical::{
    ascii_framed, ascii_slice, comment_end, no_nul_before, lemma_comment_end, lemma_count_newlines_bound,
    lemma_digits_end, lemma_line_step, lemma_string_end, lemma_word_end, lemma_ws_end, line_at,
    number_end, spec_is_alpha, spec_is_blank, spec_is_digit, str_equal, string_end, terminated,
    valid_position, word_end, ws_end, digits_end, LexemeSpec, ScanStep,
};

verus! {

/// The kind of a token made of the single character `c` that is never the
/// start of a longer token.
pub open spec fn single_char_kind(c: u8) -> Option<TokenKind> {
    if c == 59 {
        Some(TokenKind::Semicolon)
    } else if c == 58 {
        Some(TokenKind::Colon)
    } else if c == 44 {
        Some(TokenKind::Comma)
    } else if c == 46 {
        Some(TokenKind::Dot)
    } else if c == 45 {
        Some(TokenKind::Hyphen)
    } else if c == 47 {
        Some(TokenKind::Slash)
    } else {
        None
    }
}

/// The kind of a token that starts with `!`, `=`, `<` or `>`; `with_equal`
/// tells whether an `=` follows it.
pub open spec fn operator_kind(c: u8, with_equal: bool) -> Option<TokenKind> {
    if c == 33 {
        Some(if with_equal { TokenKind::BangEqual } else { TokenKind::Bang })
    } else if c == 61 {
        Some(if with_equal { TokenKind::EqualEqual } else { TokenKind::Equal })
    } else if c == 60 {
        Some(if with_equal { TokenKind::LessEqual } else { TokenKind::Less })
    } else if c == 62 {
        Some(if with_equal { TokenKind::GreaterEqual } else { TokenKind::Greater })
    } else {
        None
    }
}

/// The kind of the two-character operator made of an operator character
/// followed by `=`.
pub open spec fn followed_by_equal(kind: TokenKind) -> TokenKind {
    match kind {
        TokenKind::Bang => TokenKind::BangEqual,
        TokenKind::Equal => TokenKind::EqualEqual,
        TokenKind::Less => TokenKind::LessEqual,
        TokenKind::Greater => TokenKind::GreaterEqual,
        _ => kind,
    }
}

/// An operator character and the same character followed by `=` scan to
/// matching kinds: `<` and `<=`, `>` and `>=`, `!` and `!=`, `=` and `==`.
pub proof fn law_operators_match_their_equal_forms(c: u8)
    ensures
        operator_kind(c, false) is Some ==> operator_kind(c, true) == Some(
            followed_by_equal(operator_kind(c, false)->0),
        ),
        operator_kind(c, false) is Some <==> operator_kind(c, true) is Some,
{
}

/// Different operator characters scan to different kinds of token.
pub proof fn law_operator_characters_are_told_apart(c: u8, d: u8, with_equal: bool)
    requires
        c != d,
        operator_kind(c, with_equal) is Some,
        operator_kind(d, with_equal) is Some,
    ensures
        operator_kind(c, with_equal) != operator_kind(d, with_equal),
{
}

/// The kind of a word: the keyword, ingredient or utensil it names, or `Ident`.
pub open spec fn keyword_kind(name: Seq<char>) -> TokenKind {
    if name == "compliments"@ {
        TokenKind::And
    } else if name == "and"@ {
        TokenKind::ParameterAnd
    } else if name == "plus"@ {
        TokenKind::Plus
    } else if name == "now"@ {
        TokenKind::BareFunctionInvocation
    } else if name == "subtract"@ {
        TokenKind::Minus
    } else if name == "check"@ {
        TokenKind::If
    } else if name == "with"@ {
        TokenKind::LeftParen
    } else if name == "combine"@ {
        TokenKind::Star
    } else if name == "otherwise"@ {
        TokenKind::Else
    } else if name == "false"@ {
        TokenKind::False
    } else if name == "nil"@ {
        TokenKind::Nil
    } else if name == "or"@ {
        TokenKind::Or
    } else if name == "taste"@ {
        TokenKind::Print
    } else if name == "do"@ {
        TokenKind::LeftBrace
    } else if name == "serve"@ {
        TokenKind::Return
    } else if name == "true"@ {
        TokenKind::True
    } else if name == "while"@ {
        TokenKind::While
    } else if name == "Recipe"@ {
        TokenKind::Recipe
    } else if name == "finish"@ {
        TokenKind::RightBrace
    } else if name == "Ingredients"@ {
        TokenKind::Ingredients
    } else if name == "Utensils"@ {
        TokenKind::Utensils
    } else if name == "Steps"@ {
        TokenKind::Steps
    } else if name == "egg"@ {
        TokenKind::VarIdent
    } else if name == "flour"@ {
        TokenKind::VarIdent
    } else if name == "sugar"@ {
        TokenKind::VarIdent
    } else if name == "milk"@ {
        TokenKind::VarIdent
    } else if name == "chocolate"@ {
        TokenKind::VarIdent
    } else if name == "banana"@ {
        TokenKind::VarIdent
    } else if name == "whisk"@ {
        TokenKind::FunIdent
    } else if name == "bake"@ {
        TokenKind::FunIdent
    } else if name == "cook"@ {
        TokenKind::FunIdent
    } else {
        TokenKind::Ident
    }
}

/// The token the scanner produces from position `cur` of `b`, and where it stops.
pub open spec fn scan_step(b: Seq<u8>, cur: int) -> ScanStep<TokenKind> {
    let s = ws_end(b, cur);
    let c = b[s];
    if c == 0 {
        ScanStep { kind: TokenKind::Eof, lexeme: LexemeSpec::Span(s, s), next: s }
    } else if single_char_kind(c) is Some {
        ScanStep { kind: single_char_kind(c)->0, lexeme: LexemeSpec::Span(s, s + 1), next: s + 1 }
    } else if operator_kind(c, false) is Some {
        let with_equal = b[s + 1] == 61;
        let e = if with_equal { s + 2 } else { s + 1 };
        ScanStep { kind: operator_kind(c, with_equal)->0, lexeme: LexemeSpec::Span(s, e), next: e }
    } else if c == 34 {
        let e = string_end(b, s + 1);
        if b[e] == 0 {
            ScanStep {
                kind: TokenKind::Error,
                lexeme: LexemeSpec::Message("Unterminated string."@),
                next: e,
            }
        } else {
            ScanStep { kind: TokenKind::String, lexeme: LexemeSpec::Span(s, e + 1), next: e + 1 }
        }
    } else if spec_is_digit(c) {
        let e = number_end(b, s);
        ScanStep { kind: TokenKind::Number, lexeme: LexemeSpec::Span(s, e), next: e }
    } else if !spec_is_alpha(c) {
        ScanStep {
            kind: TokenKind::Error,
            lexeme: LexemeSpec::Message("Invalid character"@),
            next: s + 1,
        }
    } else {
        let e = word_end(b, s + 1);
        ScanStep {
            kind: keyword_kind(decode_utf8(b.subrange(s, e))),
            lexeme: LexemeSpec::Span(s, e),
            next: e,
        }
    }
}

/// The text of `token` is what `lexeme` describes within the bytes `b`.
pub open spec fn token_text_matches(b: Seq<u8>, token: Token, lexeme: LexemeSpec) -> bool {
    match lexeme {
        LexemeSpec::Span(a, e) => token.lexeme.spec_bytes() == b.subrange(a, e),
        LexemeSpec::Message(m) => token.lexeme@ == m,
    }
}

/// Turns source text into tokens, one at a time.
pub struct Scanner<'src> {
    source: &'src str,
    start: usize,
    current: usize,
    line: usize,
}

impl<'src> Scanner<'src> {
    /// The bytes of the source being scanned.
    pub closed spec fn bytes(&self) -> Seq<u8> {
        self.source.spec_bytes()
    }

    /// The position of the next byte to scan.
    pub closed spec fn position(&self) -> int {
        self.current as int
    }

    /// The scanner's position is consistent with its source, before the line
    /// count is brought up to date.
    closed spec fn wf_position(&self) -> bool {
        let b = self.source.spec_bytes();
        &&& b.len() <= usize::MAX
        &&& valid_position(b, self.current as int)
        &&& self.start <= self.current
    }

    /// The scanner stands at a position of its source that has not passed the
    /// end mark, and its line is the line of that position.
    pub closed spec fn wf(&self) -> bool {
        &&& self.wf_position()
        &&& self.line == line_at(self.source.spec_bytes(), self.current as int)
    }

    /// A consistent scanner stands at a position of its source before the end
    /// mark, and its source fits in memory.
    pub proof fn lemma_position_valid(&self)
        requires
            self.wf(),
        ensures
            valid_position(self.bytes(), self.position()),
            self.bytes().len() <= usize::MAX,
    {
    }

    /// From any position a consistent scanner can stand at, scanning moves
    /// forward on every token but the end of file, never past the end mark,
    /// with the text of a token within what it passed over; once at the end of
    /// file, scanning again gives the same end-of-file token in the same place.
    pub proof fn law_scanner_moves_forward(&self)
        requires
            self.wf(),
        ensures
            ({
                let b = self.bytes();
                let p = self.position();
                let st = scan_step(b, p);
                &&& p <= st.next
                &&& valid_position(b, st.next)
                &&& st.kind != TokenKind::Eof ==> p < st.next
                &&& st.kind == TokenKind::Eof ==> scan_step(b, st.next) == st
                &&& st.lexeme matches LexemeSpec::Span(a, e) ==> p <= a <= e == st.next
            }),
    {
        let b = self.bytes();
        let p = self.position();
        law_scanning_advances(b, p);
        if scan_step(b, p).kind == TokenKind::Eof {
            law_end_of_file_repeats(b, p);
        }
    }

    /// A scanner at the start of `source`. It is ready to scan when the
    /// source ends with a NUL byte, which marks the end of the text.
    pub fn new(source: &'src str) -> (scanner: Self)
        ensures
            terminated(source.spec_bytes()) ==> scanner.wf(),
            scanner.bytes() == source.spec_bytes(),
            scanner.position() == 0,
    {
        let _len = source.as_bytes().len();
        proof {
            assert(source.spec_bytes().subrange(0, 0) =~= Seq::<u8>::empty());
        }
        Self { source, start: 0, current: 0, line: 1 }
    }

    fn peek(&self) -> (byte: u8)
        requires
            self.wf_position(),
        ensures
            byte == self.bytes()[self.position()],
    {
        self.source.as_bytes()[self.current]
    }

    fn is_at_end(&self) -> (at_end: bool)
        requires
            self.wf_position(),
        ensures
            at_end == (self.bytes()[self.position()] == 0),
    {
        self.peek() == 0
    }

    fn peek_next(&self) -> (byte: Option<u8>)
        requires
            self.wf_position(),
        ensures
            byte == if self.position() + 1 < self.bytes().len() {
                Some(self.bytes()[self.position() + 1])
            } else {
                None::<u8>
            },
    {
        let bytes = self.source.as_bytes();
        if self.current + 1 < bytes.len() {
            Some(bytes[self.current + 1])
        } else {
            None
        }
    }

    fn advance(&mut self) -> (byte: u8)
        requires
            old(self).wf_position(),
            old(self).bytes()[old(self).position()] != 0,
        ensures
            final(self).wf_position(),
            byte == old(self).bytes()[old(self).position()],
            final(self).source == old(self).source,
            final(self).start == old(self).start,
            final(self).line == old(self).line,
            final(self).current == old(self).current + 1,
    {
        let byte = self.source.as_bytes()[self.current];
        self.current += 1;
        byte
    }

    fn is_match(&mut self, byte: u8) -> (matched: bool)
        requires
            old(self).wf(),
            byte != 0,
            byte != 10,
        ensures
            final(self).wf(),
            final(self).source == old(self).source,
            final(self).start == old(self).start,
            matched == (old(self).bytes()[old(self).position()] == byte),
            final(self).current == old(self).current + if matched { 1usize } else { 0usize },
    {
        if self.is_at_end() {
            return false;
        }
        if self.peek() != byte {
            return false;
        }
        proof {
            lemma_line_step(self.bytes(), self.current as int);
        }
        self.current += 1;
        true
    }

    fn lexeme(&self) -> (text: &'src str)
        requires
            self.wf_position(),
            ascii_framed(self.bytes(), self.start as int, self.current as int),
        ensures
            text.spec_bytes() == self.bytes().subrange(self.start as int, self.current as int),
    {
        ascii_slice(self.source, self.start, self.current)
    }

    fn make_token(&self, kind: TokenKind) -> (token: Token<'src>)
        requires
            self.wf(),
            ascii_framed(self.bytes(), self.start as int, self.current as int),
        ensures
            token.kind == kind,
            token.lexeme.spec_bytes() == self.bytes().subrange(
                self.start as int,
                self.current as int,
            ),
            token.line == self.line,
    {
        Token { kind, lexeme: self.lexeme(), line: self.line }
    }

    fn make_error_token(&self, message: &'static str) -> (token: Token<'src>)
        ensures
            token.kind == TokenKind::Error,
            token.lexeme == message,
            token.line == self.line,
    {
        Token { kind: TokenKind::Error, lexeme: message, line: self.line }
    }

    fn make_string_token(&mut self) -> (token: Token<'src>)
        requires
            old(self).wf(),
            old(self).start + 1 == old(self).current,
            old(self).bytes()[old(self).start as int] == 34,
        ensures
            final(self).wf(),
            final(self).source == old(self).source,
            ({
                let b = old(self).bytes();
                let e = string_end(b, old(self).position());
                &&& b[e] == 0 ==> {
                    &&& final(self).position() == e
                    &&& token.kind == TokenKind::Error
                    &&& token.lexeme@ == "Unterminated string."@
                }
                &&& b[e] != 0 ==> {
                    &&& final(self).position() == e + 1
                    &&& token.kind == TokenKind::String
                    &&& token.lexeme.spec_bytes() == b.subrange(old(self).start as int, e + 1)
                }
                &&& token.line == final(self).line
            }),
    {
        let ghost b = self.bytes();
        let ghost src = self.source;
        let ghost start = self.start;
        let ghost e = string_end(b, self.current as int);
        proof {
            lemma_string_end(b, self.current as int);
        }
        while self.peek() != 34 && !self.is_at_end()
            invariant
                self.wf(),
                self.bytes() == b,
                self.source == src,
                self.start == start,
                self.start + 1 <= self.current,
                self.current <= e,
                string_end(b, self.current as int) == e,
                b[self.start as int] == 34,
                e < b.len(),
                b[e] == 34 || b[e] == 0,
            decreases e - self.current,
        {
            proof {
                lemma_line_step(b, self.current as int);
                lemma_count_newlines_bound(b.subrange(0, self.current + 1));
            }
            if self.advance() == 10 {
                self.line += 1;
            }
        }
        if self.is_at_end() {
            return self.make_error_token("Unterminated string.");
        }
        proof {
            lemma_line_step(b, self.current as int);
            assert(self.current + 1 < b.len());
        }
        self.current += 1;
        self.make_token(TokenKind::String)
    }

    fn make_number_token(&mut self) -> (token: Token<'src>)
        requires
            old(self).wf(),
            old(self).start + 1 == old(self).current,
            spec_is_digit(old(self).bytes()[old(self).start as int]),
        ensures
            final(self).wf(),
            final(self).source == old(self).source,
            final(self).position() == number_end(old(self).bytes(), old(self).start as int),
            token.kind == TokenKind::Number,
            token.lexeme.spec_bytes() == old(self).bytes().subrange(
                old(self).start as int,
                final(self).position(),
            ),
            token.line == final(self).line,
    {
        let ghost b = self.bytes();
        let ghost src = self.source;
        let ghost start = self.start;
        proof {
            lemma_digits_end(b, self.current as int);
        }
        let ghost d = digits_end(b, self.current as int);
        while is_digit(self.peek())
            invariant
                self.wf(),
                self.bytes() == b,
                self.source == src,
                self.start == start,
                self.start < self.current <= d,
                spec_is_digit(b[start as int]),
                spec_is_digit(b[self.current - 1]),
                digits_end(b, self.current as int) == d,
                d < b.len(),
            decreases d - self.current,
        {
            proof {
                lemma_line_step(b, self.current as int);
                assert(digits_end(b, self.current + 1) == d);
                lemma_digits_end(b, self.current + 1);
            }
            self.current += 1;
        }
        let next = match self.peek_next() {
            Some(next) => next,
            None => {
                return self.make_token(TokenKind::Number);
            },
        };
        if self.peek() == 46 && is_digit(next) {
            proof {
                lemma_line_step(b, self.current as int);
                lemma_digits_end(b, self.current + 1);
            }
            self.current += 1;
            let ghost f = digits_end(b, self.current as int);
            while is_digit(self.peek())
                invariant
                    self.wf(),
                    self.bytes() == b,
                    self.source == src,
                    self.start == start,
                    d < self.current <= f,
                    self.start < self.current,
                    spec_is_digit(b[start as int]),
                    b[self.current - 1] < 128,
                    digits_end(b, self.current as int) == f,
                    f < b.len(),
                    f == digits_end(b, d + 1),
                decreases f - self.current,
            {
                proof {
                    lemma_line_step(b, self.current as int);
                    assert(digits_end(b, self.current + 1) == f);
                    lemma_digits_end(b, self.current + 1);
                }
                self.current += 1;
            }
        }
        self.make_token(TokenKind::Number)
    }

    fn make_identifier_token(&mut self) -> (token: Token<'src>)
        requires
            old(self).wf(),
            old(self).start + 1 == old(self).current,
            spec_is_alpha(old(self).bytes()[old(self).start as int]),
        ensures
            final(self).wf(),
            final(self).source == old(self).source,
            final(self).position() == word_end(old(self).bytes(), old(self).position()),
            token.lexeme.spec_bytes() == old(self).bytes().subrange(
                old(self).start as int,
                final(self).position(),
            ),
            token.kind == keyword_kind(
                decode_utf8(old(self).bytes().subrange(old(self).start as int, final(self).position())),
            ),
            token.line == final(self).line,
    {
        let ghost b = self.bytes();
        let ghost src = self.source;
        let ghost start = self.start;
        proof {
            lemma_word_end(b, self.current as int);
        }
        let ghost w = word_end(b, self.current as int);
        loop
            invariant
                self.wf(),
                self.bytes() == b,
                self.source == src,
                self.start == start,
                self.start < self.current <= w,
                spec_is_alpha(b[start as int]),
                spec_is_digit(b[self.current - 1]) || spec_is_alpha(b[self.current - 1]),
                word_end(b, self.current as int) == w,
                w < b.len(),
            ensures
                self.wf(),
                self.bytes() == b,
                self.source == src,
                self.start == start,
                self.current == w,
                self.start < self.current,
                spec_is_alpha(b[start as int]),
                spec_is_digit(b[self.current - 1]) || spec_is_alpha(b[self.current - 1]),
            decreases w - self.current,
        {
            let byte = self.peek();
            if !is_digit(byte) && !is_alpha(byte) {
                break;
            }
            proof {
                lemma_line_step(b, self.current as int);
                assert(word_end(b, self.current + 1) == w);
                lemma_word_end(b, self.current + 1);
            }
            self.current += 1;
        }
        let text = self.lexeme();
        proof {
            broadcast use encode_utf8_decode_utf8;
            assert(text@ == decode_utf8(text.spec_bytes()));
        }
        let kind = identifier_kind(text);
        Token { kind, lexeme: text, line: self.line }
    }

    fn skip_whitespace(&mut self)
        requires
            old(self).wf(),
        ensures
            final(self).wf(),
            final(self).source == old(self).source,
            final(self).start == old(self).start,
            final(self).position() == ws_end(old(self).bytes(), old(self).position()),
    {
        let ghost b = self.bytes();
        let ghost src = self.source;
        let ghost start = self.start;
        let ghost target = ws_end(b, self.current as int);
        proof {
            lemma_ws_end(b, self.current as int);
        }
        loop
            invariant
                self.wf(),
                self.bytes() == b,
                self.source == src,
                self.start == start,
                self.current <= target,
                ws_end(b, self.current as int) == target,
                valid_position(b, target),
            ensures
                self.wf(),
                self.bytes() == b,
                self.source == src,
                self.start == start,
                self.current == target,
            decreases target - self.current,
        {
            let byte = self.peek();
            if byte == 32 || byte == 13 || byte == 9 {
                proof {
                    lemma_line_step(b, self.current as int);
                    assert(ws_end(b, self.current + 1) == target);
                    lemma_ws_end(b, self.current + 1);
                }
                self.current += 1;
            } else if byte == 10 {
                proof {
                    lemma_line_step(b, self.current as int);
                    assert(ws_end(b, self.current + 1) == target);
                    lemma_ws_end(b, self.current + 1);
                    lemma_count_newlines_bound(b.subrange(0, self.current + 1));
                }
                self.line += 1;
                self.current += 1;
            } else if byte == 47 {
                match self.peek_next() {
                    Some(47) => {
                        let ghost i = self.current as int;
                        let ghost ce = comment_end(b, i + 2);
                        proof {
                            lemma_comment_end(b, i + 2);
                            assert(ws_end(b, i) == ws_end(b, ce));
                            assert(no_nul_before(b, ce));
                            assert(ce < b.len()) by {
                                if ce == b.len() {
                                    assert(b[b.len() - 1] != 0);
                                }
                            }
                            lemma_ws_end(b, ce);
                        }
                        while self.peek() != 10 && !self.is_at_end()
                            invariant
                                self.wf(),
                                self.bytes() == b,
                                self.source == src,
                                self.start == start,
                                0 <= i,
                                i + 2 <= ce,
                                i <= self.current <= ce,
                                b[ce] == 10 || b[ce] == 0,
                                b[i] == 47,
                                b[i + 1] == 47,
                                ce == comment_end(b, i + 2),
                                forall|k: int| i + 2 <= k < ce ==> b[k] != 10 && b[k] != 0,
                                ce < b.len(),
                                ws_end(b, ce) == target,
                            decreases ce - self.current,
                        {
                            proof {
                                lemma_line_step(b, self.current as int);
                                if (self.current as int) < i + 2 {
                                    assert(b[self.current as int] == 47);
                                }
                            }
                            self.current += 1;
                        }
                    },
                    _ => {
                        break;
                    },
                }
            } else {
                break;
            }
        }
    }

    /// Scans the next token, skipping whitespace and comments before it.
    pub fn scan_token(&mut self) -> (token: Token<'src>)
        requires
            old(self).wf(),
        ensures
            final(self).wf(),
            final(self).bytes() == old(self).bytes(),
            ({
                let st = scan_step(old(self).bytes(), old(self).position());
                &&& final(self).position() == st.next
                &&& token.kind == st.kind
                &&& token_text_matches(old(self).bytes(), token, st.lexeme)
                &&& token.line == line_at(old(self).bytes(), st.next)
            }),
    {
        let ghost b = self.bytes();
        proof {
            lemma_ws_end(b, self.current as int);
        }
        self.skip_whitespace();
        self.start = self.current;
        if self.is_at_end() {
            return self.make_token(TokenKind::Eof);
        }
        let byte = self.advance();
        proof {
            lemma_line_step(b, self.start as int);
        }
        match byte {
            59 => self.make_token(TokenKind::Semicolon),
            58 => self.make_token(TokenKind::Colon),
            44 => self.make_token(TokenKind::Comma),
            46 => self.make_token(TokenKind::Dot),
            45 => self.make_token(TokenKind::Hyphen),
            47 => self.make_token(TokenKind::Slash),
            33 => if self.is_match(61) {
                self.make_token(TokenKind::BangEqual)
            } else {
                self.make_token(TokenKind::Bang)
            },
            61 => if self.is_match(61) {
                self.make_token(TokenKind::EqualEqual)
            } else {
                self.make_token(TokenKind::Equal)
            },
            60 => if self.is_match(61) {
                self.make_token(TokenKind::LessEqual)
            } else {
                self.make_token(TokenKind::Less)
            },
            62 => if self.is_match(61) {
                self.make_token(TokenKind::GreaterEqual)
            } else {
                self.make_token(TokenKind::Greater)
            },
            34 => self.make_string_token(),
            b if is_digit(b) => self.make_number_token(),
            b if is_alpha(b) => self.make_identifier_token(),
            _ => self.make_error_token("Invalid character"),
        }
    }
}

/// A string token's text starts and ends with a double quote.
pub proof fn lemma_string_token(b: Seq<u8>, p: int)
    requires
        valid_position(b, p),
        scan_step(b, p).kind == TokenKind::String,
    ensures
        scan_step(b, p).lexeme matches LexemeSpec::Span(a, e) && 0 <= a && a + 2 <= e <= b.len()
            && b[a] == 34 && b[e - 1] == 34,
{
    lemma_ws_end(b, p);
    let s = ws_end(b, p);
    lemma_string_end(b, s + 1);
    law_scanning_advances(b, p);
}

/// Once the scanner has reached the end of its source, it stays there and
/// keeps producing the same end-of-file token.
pub proof fn law_end_of_file_repeats(b: Seq<u8>, cur: int)
    requires
        valid_position(b, cur),
        scan_step(b, cur).kind == TokenKind::Eof,
    ensures
        scan_step(b, scan_step(b, cur).next) == scan_step(b, cur),
{
    lemma_ws_end(b, cur);
    let s = ws_end(b, cur);
    assert(ws_end(b, s) == s);
}

/// Scanning never moves backwards, stays within the source, and moves forward
/// on every token but the end-of-file token; a token's text is the part of the
/// source the scanner has just passed over.
pub proof fn law_scanning_advances(b: Seq<u8>, cur: int)
    requires
        valid_position(b, cur),
    ensures
        cur <= scan_step(b, cur).next,
        valid_position(b, scan_step(b, cur).next),
        scan_step(b, cur).kind != TokenKind::Eof ==> cur < scan_step(b, cur).next,
        scan_step(b, cur).lexeme matches LexemeSpec::Span(a, e) ==> cur <= a <= e
            == scan_step(b, cur).next,
{
    lemma_ws_end(b, cur);
    let s = ws_end(b, cur);
    let c = b[s];
    if c == 0 {
    } else if single_char_kind(c) is Some || operator_kind(c, false) is Some {
        assert(s + 1 < b.len());
    } else if c == 34 {
        lemma_string_end(b, s + 1);
        let e = string_end(b, s + 1);
        assert(e < b.len()) by {
            if e == b.len() {
                assert(b[b.len() - 1] != 0);
            }
        }
    } else if !spec_is_alpha(c) && !spec_is_digit(c) {
        assert(s + 1 < b.len());
    } else if spec_is_digit(c) {
        lemma_digits_end(b, s + 1);
        let i = digits_end(b, s + 1);
        assert(i < b.len()) by {
            if i == b.len() {
                assert(b[b.len() - 1] != 0);
            }
        }
        if i + 1 < b.len() && b[i] == 46 && spec_is_digit(b[i + 1]) {
            lemma_digits_end(b, i + 2);
            let f = digits_end(b, i + 2);
            assert(f < b.len()) by {
                if f == b.len() {
                    assert(b[b.len() - 1] != 0);
                }
            }
        }
    } else {
        lemma_word_end(b, s + 1);
        let e = word_end(b, s + 1);
        assert(e < b.len()) by {
            if e == b.len() {
                assert(b[b.len() - 1] != 0);
            }
        }
    }
}

/// The kind of the word `name`: the keyword, ingredient or utensil it names, or `Ident`.
fn identifier_kind(name: &str) -> (kind: TokenKind)
    ensures
        kind == keyword_kind(name@),
{
    if str_equal(name, "compliments") {
        TokenKind::And
    } else if str_equal(name, "and") {
        TokenKind::ParameterAnd
    } else if str_equal(name, "plus") {
        TokenKind::Plus
    } else if str_equal(name, "now") {
        TokenKind::BareFunctionInvocation
    } else if str_equal(name, "subtract") {
        TokenKind::Minus
    } else if str_equal(name, "check") {
        TokenKind::If
    } else if str_equal(name, "with") {
        TokenKind::LeftParen
    } else if str_equal(name, "combine") {
        TokenKind::Star
    } else if str_equal(name, "otherwise") {
        TokenKind::Else
    } else if str_equal(name, "false") {
        TokenKind::False
    } else if str_equal(name, "nil") {
        TokenKind::Nil
    } else if str_equal(name, "or") {
        TokenKind::Or
    } else if str_equal(name, "taste") {
        TokenKind::Print
    } else if str_equal(name, "do") {
        TokenKind::LeftBrace
    } else if str_equal(name, "serve") {
        TokenKind::Return
    } else if str_equal(name, "true") {
        TokenKind::True
    } else if str_equal(name, "while") {
        TokenKind::While
    } else if str_equal(name, "Recipe") {
        TokenKind::Recipe
    } else if str_equal(name, "finish") {
        TokenKind::RightBrace
    } else if str_equal(name, "Ingredients") {
        TokenKind::Ingredients
    } else if str_equal(name, "Utensils") {
        TokenKind::Utensils
    } else if str_equal(name, "Steps") {
        TokenKind::Steps
    } else if str_equal(name, "egg") {
        TokenKind::VarIdent
    } else if str_equal(name, "flour") {
        TokenKind::VarIdent
    } else if str_equal(name, "sugar") {
        TokenKind::VarIdent
    } else if str_equal(name, "milk") {
        TokenKind::VarIdent
    } else if str_equal(name, "chocolate") {
        TokenKind::VarIdent
    } else if str_equal(name, "banana") {
        TokenKind::VarIdent
    } else if str_equal(name, "whisk") {
        TokenKind::FunIdent
    } else if str_equal(name, "bake") {
        TokenKind::FunIdent
    } else if str_equal(name, "cook") {
        TokenKind::FunIdent
    } else {
        TokenKind::Ident
    }
}

fn is_digit(byte: u8) -> (r: bool)
    ensures
        r == spec_is_digit(byte),
{
    48 <= byte && byte <= 57
}

fn is_alpha(byte: u8) -> (r: bool)
    ensures
        r == spec_is_alpha(byte),
{
    (97 <= byte && byte <= 122) || (65 <= byte && byte <= 90) || byte == 95
}

/// The kinds of token of the recipe language.
#[derive(Debug, PartialEq, Eq, Clone, Copy, Hash, Structural)]
pub enum TokenKind {
    // Single-character tokens.
    LeftParen,
    LeftBrace,
    RightBrace,
    Comma,
    Minus,
    Plus,
    Dot,
    Colon,
    Semicolon,
    Slash,
    Star,
    Hyphen,
    // One or two character tokens.
    Bang,
    BangEqual,
    Equal,
    EqualEqual,
    Greater,
    GreaterEqual,
    Less,
    LessEqual,
    // Literals.
    VarIdent,
    FunIdent,
    Ident,
    String,
    Number,
    // Keywords.
    And,
    Else,
    False,
    If,
    Nil,
    Or,
    Print,
    Return,
    True,
    While,
    ParameterAnd,
    Recipe,
    Ingredients,
    Utensils,
    Steps,
    BareFunctionInvocation,
    // Read by the compiler; no scanning rule produces them.
    RightParen,
    Var,
    Step,
    // Other.
    Error,
    Eof,
}

/// A token: its kind, the text it was scanned from (or an error message), and its line.
#[derive(Debug, Clone, Copy)]
pub struct Token<'src> {
    pub kind: TokenKind,
    pub lexeme: &'src str,
    pub line: usize,
}

impl<'src> Token<'src> {
    /// A token of kind `kind` with text `lexeme` on line `line`.
    pub fn new(lexeme: &'src str, line: usize, kind: TokenKind) -> (token: Self)
        ensures
            token.kind == kind,
            token.lexeme == lexeme,
            token.line == line,
    {
        Self { kind, lexeme, line }
    }
}

} // verus!
