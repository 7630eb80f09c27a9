use std::rc::Rc;
use vstd::prelude::*;
use vstd::string::{StringExecFns, StringSliceAdditionalSpecFns};
use vstd::utf8::*;

use crate::chunk::{opcode_byte, Code, Opcode};
use crate::common::{CONSTANTS_MAX_COUNT, FUNCTION_ARITY_MAX_COUNT, LOCALS_MAX_COUNT};
use crate::error::{decimal_text, push_decimal_usize};
use crate::function::{Function, FunctionKind};
use crate::lexical::{inner_text, str_equal, terminated, valid_position, LexemeSpec};
use crate::lox::compiler::literal_bits;
use crate::native_functions::declare_native_functions;
use crate::rules::{infix_precedence, infix_rule, prefix_rule, rank, ParseFunctionKind, Precedence};
use crate::scanner::{
    keyword_kind, lemma_string_token, operator_kind, scan_step, single_char_kind, Scanner, Token,
    TokenKind,
};
use crate::error::{ChefError, InterpretResult};
use crate::value::{ArithmeticOperation, Value};
use crate::vm::{
    at_ip, can_pop, compares, lemma_comparison_pushes, popped, step_outcome, top_value, Action,
    StateView,
};
use crate::value::number_lt;

verus! {

/// Where an argument or parameter stands in a list written `a, b and c`.
#[derive(PartialEq, Eq, Clone, Copy, Structural)]
pub enum ArgumentPosition {
    First,
    Middle,
    Last,
}

/// The state of compiling one recipe function: its step counters, one per
/// open block, its locals, the jump of a `check` waiting for its `otherwise`,
/// and the function that encloses it.
pub struct CompilerContext<'src> {
    pub enclosing: Option<Box<CompilerContext<'src>>>,
    pub scope_ordering: Vec<u16>,
    pub locals: Vec<&'src str>,
    pub locals_count: usize,
    pub active_else: Option<usize>,
}

impl<'src> CompilerContext<'src> {
    /// The state at the start of a function: one block with its step counter
    /// at one, every local slot empty, no pending `otherwise`.
    pub fn new() -> (c: Self)
        ensures
            c.enclosing is None,
            c.scope_ordering@ == seq![1u16],
            c.locals@.len() == LOCALS_MAX_COUNT,
            forall|i: int| 0 <= i < LOCALS_MAX_COUNT ==> (#[trigger] c.locals@[i])@ == ""@,
            c.locals_count == 0,
            c.active_else is None,
    {
        let mut locals: Vec<&'src str> = Vec::new();
        let mut i: usize = 0;
        while i < LOCALS_MAX_COUNT
            invariant
                i <= LOCALS_MAX_COUNT,
                locals@.len() == i,
                forall|k: int| 0 <= k < i ==> (#[trigger] locals@[k])@ == ""@,
            decreases LOCALS_MAX_COUNT - i,
        {
            locals.push("");
            i = i + 1;
        }
        let mut scope_ordering: Vec<u16> = Vec::new();
        scope_ordering.push(1);
        proof {
            assert(scope_ordering@ =~= seq![1u16]);
        }
        Self { enclosing: None, locals, locals_count: 0, scope_ordering, active_else: None }
    }

    /// Finds `token_name` among the locals of this function, the newest slot
    /// first, then among those of the functions enclosing it; gives its slot
    /// and how many functions out it was found, `depth` being this one's.
    fn resolve_local(&self, token_name: &str, depth: u8) -> (r: Result<(u8, u8), &'static str>)
        requires
            context_ok(*self),
        ensures
            r == local_resolution(*self, token_name@, depth),
        decreases context_depth(*self),
    {
        let mut i: usize = self.locals.len();
        while i > 0
            invariant
                i <= self.locals@.len() == LOCALS_MAX_COUNT,
                local_match(self.locals@, self.locals@.len() as int, token_name@) == local_match(
                    self.locals@,
                    i as int,
                    token_name@,
                ),
            decreases i,
        {
            if str_equal(token_name, self.locals[i - 1]) {
                return Ok(((i - 1) as u8, depth));
            }
            i = i - 1;
        }
        match &self.enclosing {
            Some(parent) => match depth.checked_add(1) {
                Some(next) => parent.resolve_local(token_name, next),
                None => Err("Undefined variable."),
            },
            None => Err("Undefined variable."),
        }
    }
}

/// The newest slot among the first `i` of `locals` named `name`, or -1.
pub open spec fn local_match(locals: Seq<&str>, i: int, name: Seq<char>) -> int
    decreases i,
{
    if i <= 0 {
        -1
    } else if locals[i - 1]@ == name {
        i - 1
    } else {
        local_match(locals, i - 1, name)
    }
}

/// How many functions enclose `c`.
pub open spec fn context_depth(c: CompilerContext) -> nat
    decreases c,
{
    match c.enclosing {
        Some(p) => 1 + context_depth(*p),
        None => 0,
    }
}

/// The local tables of `c` and of the functions enclosing it have their
/// fixed size.
pub open spec fn context_ok(c: CompilerContext) -> bool
    decreases c,
{
    &&& c.locals@.len() == LOCALS_MAX_COUNT
    &&& c.locals_count <= LOCALS_MAX_COUNT
    &&& match c.enclosing {
        Some(p) => context_ok(*p),
        None => true,
    }
}

/// Every `otherwise` jump waiting in `c` or in the functions enclosing it
/// has its offset inside code of length `n`.
pub open spec fn elses_ok(c: CompilerContext, n: int) -> bool
    decreases c,
{
    &&& c.active_else matches Some(j) ==> j + 2 <= n
    &&& match c.enclosing {
        Some(p) => elses_ok(*p, n),
        None => true,
    }
}

/// Waiting jumps inside some code stay inside it as the code grows.
proof fn lemma_elses_grow(c: CompilerContext, n: int, m: int)
    requires
        elses_ok(c, n),
        n <= m,
    ensures
        elses_ok(c, m),
    decreases c,
{
    if let Some(p) = c.enclosing {
        lemma_elses_grow(*p, n, m);
    }
}

/// Where `name` resolves from `c`: its slot and how many functions out,
/// counting from `depth`, or the error that it is defined nowhere (or only
/// more than 255 functions out, which no byte can count).
pub open spec fn local_resolution(c: CompilerContext, name: Seq<char>, depth: u8) -> Result<
    (u8, u8),
    &'static str,
>
    decreases c,
{
    let i = local_match(c.locals@, c.locals@.len() as int, name);
    if i >= 0 {
        Ok((i as u8, depth))
    } else {
        match c.enclosing {
            Some(p) => if depth < 255 {
                local_resolution(*p, name, (depth + 1) as u8)
            } else {
                Err("Undefined variable.")
            },
            None => Err("Undefined variable."),
        }
    }
}

/// The text of a compile error reported at `token`.
pub open spec fn error_text(token: Token, message: Seq<char>) -> Seq<char> {
    "[line "@ + decimal_text(token.line as nat) + "] Error"@ + (if token.kind == TokenKind::Eof {
        " at end of file"@
    } else if token.kind == TokenKind::Error {
        ""@
    } else {
        " at '"@ + token.lexeme@ + "'"@
    }) + ": "@ + message
}

/// A token is well formed: the text of a string token starts and ends with a
/// double quote.
pub open spec fn token_wf(t: Token) -> bool {
    t.kind == TokenKind::String ==> {
        let x = t.lexeme.spec_bytes();
        &&& x.len() >= 2
        &&& x[0] == 34
        &&& x[x.len() - 1] == 34
    }
}

/// The kind of the rule-table token whose parse rule a recipe token follows:
/// names are variables, `now` and `with` call, and operators, literals and
/// keywords follow the token of the same name.
pub open spec fn rule_kind_spec(kind: TokenKind) -> crate::lox::token::TokenKind {
    match kind {
        TokenKind::LeftParen | TokenKind::BareFunctionInvocation => crate::lox::token::TokenKind::LeftParen,
        TokenKind::LeftBrace => crate::lox::token::TokenKind::LeftBrace,
        TokenKind::RightBrace => crate::lox::token::TokenKind::RightBrace,
        TokenKind::Comma => crate::lox::token::TokenKind::Comma,
        TokenKind::Minus => crate::lox::token::TokenKind::Minus,
        TokenKind::Plus => crate::lox::token::TokenKind::Plus,
        TokenKind::Dot => crate::lox::token::TokenKind::Dot,
        TokenKind::Slash => crate::lox::token::TokenKind::Slash,
        TokenKind::Star => crate::lox::token::TokenKind::Star,
        TokenKind::Bang => crate::lox::token::TokenKind::Bang,
        TokenKind::BangEqual => crate::lox::token::TokenKind::BangEqual,
        TokenKind::Equal => crate::lox::token::TokenKind::Equal,
        TokenKind::EqualEqual => crate::lox::token::TokenKind::EqualEqual,
        TokenKind::Greater => crate::lox::token::TokenKind::Greater,
        TokenKind::GreaterEqual => crate::lox::token::TokenKind::GreaterEqual,
        TokenKind::Less => crate::lox::token::TokenKind::Less,
        TokenKind::LessEqual => crate::lox::token::TokenKind::LessEqual,
        TokenKind::VarIdent | TokenKind::FunIdent | TokenKind::Ident => crate::lox::token::TokenKind::Identifier,
        TokenKind::String => crate::lox::token::TokenKind::String,
        TokenKind::Number => crate::lox::token::TokenKind::Number,
        TokenKind::And => crate::lox::token::TokenKind::And,
        TokenKind::Else => crate::lox::token::TokenKind::Else,
        TokenKind::False => crate::lox::token::TokenKind::False,
        TokenKind::If => crate::lox::token::TokenKind::If,
        TokenKind::Nil => crate::lox::token::TokenKind::Nil,
        TokenKind::Or => crate::lox::token::TokenKind::Or,
        TokenKind::Print => crate::lox::token::TokenKind::Print,
        TokenKind::Return => crate::lox::token::TokenKind::Return,
        TokenKind::True => crate::lox::token::TokenKind::True,
        TokenKind::While => crate::lox::token::TokenKind::While,
        TokenKind::Var => crate::lox::token::TokenKind::Var,
        TokenKind::Eof => crate::lox::token::TokenKind::Eof,
        _ => crate::lox::token::TokenKind::Semicolon,
    }
}

/// The kind of the rule-table token whose parse rule `kind` follows.
pub fn rule_kind(kind: TokenKind) -> (k: crate::lox::token::TokenKind)
    ensures
        k == rule_kind_spec(kind),
{
    match kind {
        TokenKind::LeftParen | TokenKind::BareFunctionInvocation => crate::lox::token::TokenKind::LeftParen,
        TokenKind::LeftBrace => crate::lox::token::TokenKind::LeftBrace,
        TokenKind::RightBrace => crate::lox::token::TokenKind::RightBrace,
        TokenKind::Comma => crate::lox::token::TokenKind::Comma,
        TokenKind::Minus => crate::lox::token::TokenKind::Minus,
        TokenKind::Plus => crate::lox::token::TokenKind::Plus,
        TokenKind::Dot => crate::lox::token::TokenKind::Dot,
        TokenKind::Slash => crate::lox::token::TokenKind::Slash,
        TokenKind::Star => crate::lox::token::TokenKind::Star,
        TokenKind::Bang => crate::lox::token::TokenKind::Bang,
        TokenKind::BangEqual => crate::lox::token::TokenKind::BangEqual,
        TokenKind::Equal => crate::lox::token::TokenKind::Equal,
        TokenKind::EqualEqual => crate::lox::token::TokenKind::EqualEqual,
        TokenKind::Greater => crate::lox::token::TokenKind::Greater,
        TokenKind::GreaterEqual => crate::lox::token::TokenKind::GreaterEqual,
        TokenKind::Less => crate::lox::token::TokenKind::Less,
        TokenKind::LessEqual => crate::lox::token::TokenKind::LessEqual,
        TokenKind::VarIdent | TokenKind::FunIdent | TokenKind::Ident => crate::lox::token::TokenKind::Identifier,
        TokenKind::String => crate::lox::token::TokenKind::String,
        TokenKind::Number => crate::lox::token::TokenKind::Number,
        TokenKind::And => crate::lox::token::TokenKind::And,
        TokenKind::Else => crate::lox::token::TokenKind::Else,
        TokenKind::False => crate::lox::token::TokenKind::False,
        TokenKind::If => crate::lox::token::TokenKind::If,
        TokenKind::Nil => crate::lox::token::TokenKind::Nil,
        TokenKind::Or => crate::lox::token::TokenKind::Or,
        TokenKind::Print => crate::lox::token::TokenKind::Print,
        TokenKind::Return => crate::lox::token::TokenKind::Return,
        TokenKind::True => crate::lox::token::TokenKind::True,
        TokenKind::While => crate::lox::token::TokenKind::While,
        TokenKind::Var => crate::lox::token::TokenKind::Var,
        TokenKind::Eof => crate::lox::token::TokenKind::Eof,
        _ => crate::lox::token::TokenKind::Semicolon,
    }
}

/// The compiler of recipes: the scanner, the last two tokens, whether an
/// error was reported and whether it is recovering from one, the function
/// being compiled, the code of the whole recipe, the error reports so far,
/// and the values of the number literals of the source.
pub struct Compiler<'src> {
    pub scanner: Scanner<'src>,
    pub previous: Token<'src>,
    pub current: Token<'src>,
    pub context: CompilerContext<'src>,
    pub had_error: bool,
    pub panic_mode: bool,
    pub code: Code,
    pub diagnostics: Vec<String>,
    pub number_literals: Vec<(String, u64)>,
}

/// `new` holds at least as much code as `old`, and keeps its constants in
/// use.
pub open spec fn keeps_code(old: Compiler, new: Compiler) -> bool {
    let c = old.code;
    let d = new.code;
    &&& c.code@.len() <= d.code@.len()
    &&& c.constants_count <= d.constants_count
    &&& forall|i: int| 0 <= i < c.constants_count ==> d.constants@[i] == c.constants@[i]
}

/// `new` is the compiler `old` after some compiling: still consistent, never
/// further from the end of its source and either nearer to it or still at a
/// token of the same kind, still in error once in error, its earlier reports
/// kept, scanning the same source with the same literals.
pub open spec fn moves_on(old: Compiler, new: Compiler) -> bool {
    &&& new.wf()
    &&& new.progress() <= old.progress()
    &&& new.progress() < old.progress() || new.current.kind == old.current.kind
    &&& old.had_error ==> new.had_error
    &&& old.diagnostics@.len() <= new.diagnostics@.len()
    &&& forall|i: int| 0 <= i < old.diagnostics@.len() ==> new.diagnostics@[i] == old.diagnostics@[i]
    &&& new.scanner.bytes() == old.scanner.bytes()
    &&& new.number_literals == old.number_literals
    &&& keeps_code(old, new)
}

/// As `moves_on`, inside the same enclosing functions.
pub open spec fn evolves(old: Compiler, new: Compiler) -> bool {
    &&& moves_on(old, new)
    &&& new.context.enclosing == old.context.enclosing
}

/// `new` is `old` after reporting `message` at `token`: nothing changes while
/// recovering from an earlier error; otherwise the compiler starts
/// recovering, is in error, and has one more report, the text of this one.
pub open spec fn reported(old: Compiler, new: Compiler, token: Token, message: Seq<char>) -> bool {
    if old.panic_mode {
        new == old
    } else {
        &&& new == Compiler { panic_mode: true, had_error: true, diagnostics: new.diagnostics, ..old }
        &&& new.diagnostics@ == old.diagnostics@.push(new.diagnostics@.last())
        &&& new.diagnostics@.last()@ == error_text(token, message)
    }
}

/// `new` is `old` with `bytes` appended to the code, each from the line of
/// `old`'s previous token.
pub open spec fn emitted(old: Compiler, new: Compiler, bytes: Seq<u8>) -> bool {
    &&& new.code.code@ == old.code.code@ + bytes
    &&& new.code.lines@ == old.code.lines@ + Seq::new(bytes.len(), |i: int| old.previous.line)
    &&& new.code.constants == old.code.constants
    &&& new.code.constants_count == old.code.constants_count
    &&& new == Compiler { code: new.code, ..old }
}

/// A token of kind `kind` starts a statement: `check`, `while`, `taste` or
/// `serve`.
pub open spec fn starts_statement(kind: TokenKind) -> bool {
    kind == TokenKind::If || kind == TokenKind::While || kind == TokenKind::Print || kind
        == TokenKind::Return
}

/// A token of kind `kind` starts a section of a recipe or one of its steps.
pub open spec fn starts_section(kind: TokenKind) -> bool {
    kind == TokenKind::Ingredients || kind == TokenKind::Utensils || kind == TokenKind::Steps
        || kind == TokenKind::Step
}

/// The code of `c` ends with `bytes`.
pub open spec fn ends_with(c: Compiler, bytes: Seq<u8>) -> bool {
    let d = c.code.code@;
    &&& d.len() >= bytes.len()
    &&& d.subrange(d.len() - bytes.len(), d.len() as int) == bytes
}

/// The bytes an infix operator appends after both operands.
pub open spec fn binary_bytes(kind: TokenKind) -> Seq<u8> {
    match kind {
        TokenKind::Plus => seq![opcode_byte(Opcode::Add)],
        TokenKind::Minus => seq![opcode_byte(Opcode::Subtract)],
        TokenKind::Star => seq![opcode_byte(Opcode::Multiply)],
        TokenKind::Slash => seq![opcode_byte(Opcode::Divide)],
        TokenKind::EqualEqual => seq![opcode_byte(Opcode::Equal)],
        TokenKind::Greater => seq![opcode_byte(Opcode::Greater)],
        TokenKind::Less => seq![opcode_byte(Opcode::Less)],
        TokenKind::BangEqual => seq![opcode_byte(Opcode::Equal), opcode_byte(Opcode::Not)],
        _ => Seq::empty(),
    }
}

/// The byte a `nil`, `true` or `false` token appends.
pub open spec fn literal_byte(kind: TokenKind) -> u8 {
    match kind {
        TokenKind::Nil => opcode_byte(Opcode::Nil),
        TokenKind::True => opcode_byte(Opcode::True),
        _ => opcode_byte(Opcode::False),
    }
}

/// Unless the source holds an error token next, `new` has read the token
/// that follows `old`'s position, reporting nothing.
pub open spec fn reads_next(old: Compiler, new: Compiler) -> bool {
    let st = scan_step(old.scanner.bytes(), old.scanner.position());
    &&& st.kind != TokenKind::Error ==> {
        &&& new.current.kind == st.kind
        &&& new.scanner.position() == st.next
        &&& new.diagnostics == old.diagnostics
        &&& new.had_error == old.had_error
    }
    &&& st.kind == TokenKind::Error ==> new.had_error
}

/// How many parameters a list whose first name is scanned from position `p`
/// of `b` names: that name, then one more after each `,` or `and` that
/// follows a name, up to `fuel` more.
pub open spec fn parameter_count(b: Seq<u8>, p: int, fuel: nat) -> nat
    decreases fuel,
{
    let name = scan_step(b, p);
    let separator = scan_step(b, name.next);
    if fuel > 0 && (separator.kind == TokenKind::Comma || separator.kind
        == TokenKind::ParameterAnd) {
        1 + parameter_count(b, separator.next, (fuel - 1) as nat)
    } else {
        1
    }
}

/// How many parameters the utensil whose name `c` has just read declares:
/// none unless `with` comes next, then those of the list after it.
pub open spec fn declared_parameters(c: Compiler) -> nat {
    if c.current.kind == TokenKind::LeftParen {
        parameter_count(c.scanner.bytes(), c.scanner.position(), 254)
    } else {
        0
    }
}

/// The source goes on, after `c`'s position, with `Recipe`, then `Steps`,
/// then a token that is neither a step nor an error: a recipe with no
/// ingredients, no utensils and no steps.
pub open spec fn bare_recipe_follows(c: Compiler) -> bool {
    let b = c.scanner.bytes();
    let t0 = scan_step(b, c.scanner.position());
    let t1 = scan_step(b, t0.next);
    let t2 = scan_step(b, t1.next);
    &&& t0.kind == TokenKind::Recipe
    &&& t1.kind == TokenKind::Steps
    &&& t2.kind != TokenKind::Step
    &&& t2.kind != TokenKind::Error
}

/// The compiler stands at a first step `1.` followed at once by `finish`,
/// and then by a token that is no error, in a block whose step counter is
/// at one, with no `otherwise` jump pending.
pub open spec fn closes_at_once(c: Compiler) -> bool {
    let b = c.scanner.bytes();
    let t1 = scan_step(b, c.scanner.position());
    &&& c.current.kind == TokenKind::Step
    &&& c.current.lexeme@ == "1."@
    &&& t1.kind == TokenKind::RightBrace
    &&& scan_step(b, t1.next).kind != TokenKind::Error
    &&& c.context.scope_ordering@.len() >= 1
    &&& c.context.scope_ordering@.last() == 1
    &&& c.context.active_else is None
}

/// The two bytes, low first, of the number `n`.
pub open spec fn le_bytes(n: int) -> Seq<u8> {
    seq![(n % 256) as u8, (n / 256) as u8]
}

impl<'src> Compiler<'src> {
    /// The compiler is consistent: its scanner can go on, an end-of-file token
    /// stays the end, tokens are well formed, recovering implies an error was
    /// reported, an error was reported exactly when there are reports, the
    /// code and the local tables are consistent, at most one function is
    /// nested in the script, and a pending `otherwise` jump lies in the code.
    pub open spec fn wf(&self) -> bool {
        let b = self.scanner.bytes();
        let p = self.scanner.position();
        &&& self.scanner.wf()
        &&& self.current.kind == TokenKind::Eof ==> scan_step(b, p).kind == TokenKind::Eof
            && scan_step(b, p).next == p
        &&& token_wf(self.previous)
        &&& token_wf(self.current)
        &&& self.panic_mode ==> self.had_error
        &&& self.had_error <==> self.diagnostics@.len() > 0
        &&& self.code.wf()
        &&& context_ok(self.context)
        &&& elses_ok(self.context, self.code.code@.len() as int)
    }

    /// How far the compiler is from the end of its source: twice the bytes
    /// left to scan, plus one while the current token is not the end of file.
    pub open spec fn progress(&self) -> nat {
        (2 * (self.scanner.bytes().len() - self.scanner.position()) + if self.current.kind
            == TokenKind::Eof {
            0int
        } else {
            1int
        }) as nat
    }

    /// Moves to the next token, reporting and skipping error tokens.
    fn advance(&mut self)
        requires
            old(self).scanner.wf(),
            old(self).current.kind == TokenKind::Eof ==> scan_step(
                old(self).scanner.bytes(),
                old(self).scanner.position(),
            ).kind == TokenKind::Eof && scan_step(
                old(self).scanner.bytes(),
                old(self).scanner.position(),
            ).next == old(self).scanner.position(),
            token_wf(old(self).current),
            old(self).panic_mode ==> old(self).had_error,
            old(self).had_error <==> old(self).diagnostics@.len() > 0,
            old(self).code.wf(),
            context_ok(old(self).context),
            elses_ok(old(self).context, old(self).code.code@.len() as int),
        ensures
            final(self).wf(),
            final(self).previous == old(self).current,
            final(self).progress() <= old(self).progress(),
            old(self).current.kind != TokenKind::Eof ==> final(self).progress() < old(self).progress(),
            old(self).current.kind == TokenKind::Eof ==> final(self).current.kind == TokenKind::Eof,
            old(self).had_error ==> final(self).had_error,
            final(self).panic_mode ==> old(self).panic_mode || final(self).diagnostics@.len()
                > old(self).diagnostics@.len(),
            old(self).diagnostics@.len() <= final(self).diagnostics@.len(),
            forall|i: int| 0 <= i < old(self).diagnostics@.len() ==> final(self).diagnostics@[i]
                == old(self).diagnostics@[i],
            final(self).scanner.bytes() == old(self).scanner.bytes(),
            final(self).number_literals == old(self).number_literals,
            final(self).code == old(self).code,
            final(self).context == old(self).context,
            reads_next(*old(self), *final(self)),
    {
        let ghost b = self.scanner.bytes();
        let ghost p0 = self.scanner.position();
        let ghost start = *self;
        let ghost mut rounds: nat = 0;
        proof {
            self.scanner.lemma_position_valid();
        }
        self.previous = self.current;
        loop
            invariant_except_break
                rounds == 0 ==> self.scanner.position() == p0 && self.diagnostics
                    == start.diagnostics && self.had_error == start.had_error,
            invariant
                rounds > 0 ==> scan_step(b, p0).kind == TokenKind::Error && self.had_error,
                self.scanner.wf(),
                self.scanner.bytes() == b,
                self.scanner.position() >= p0,
                start.current.kind == TokenKind::Eof ==> self.scanner.position() == p0,
                start.current.kind == TokenKind::Eof ==> scan_step(b, p0).kind == TokenKind::Eof
                    && scan_step(b, p0).next == p0,
                self.previous == start.current,
                token_wf(self.previous),
                self.panic_mode ==> self.had_error,
                self.had_error <==> self.diagnostics@.len() > 0,
                start.had_error ==> self.had_error,
                self.panic_mode ==> start.panic_mode || self.diagnostics@.len()
                    > start.diagnostics@.len(),
                start.diagnostics@.len() <= self.diagnostics@.len(),
                forall|i: int| 0 <= i < start.diagnostics@.len() ==> self.diagnostics@[i]
                    == start.diagnostics@[i],
                self.number_literals == start.number_literals,
                self.code == start.code,
                self.context == start.context,
            ensures
                scan_step(b, p0).kind == TokenKind::Error ==> self.had_error,
                scan_step(b, p0).kind != TokenKind::Error ==> self.current.kind == scan_step(b, p0).kind
                    && self.scanner.position() == scan_step(b, p0).next && self.diagnostics
                    == start.diagnostics && self.had_error == start.had_error,
                self.scanner.wf(),
                self.scanner.bytes() == b,
                self.scanner.position() >= p0,
                self.current.kind != TokenKind::Eof ==> self.scanner.position() > p0,
                start.current.kind == TokenKind::Eof ==> self.current.kind == TokenKind::Eof,
                self.current.kind == TokenKind::Eof ==> scan_step(b, self.scanner.position()).kind
                    == TokenKind::Eof && scan_step(b, self.scanner.position()).next
                    == self.scanner.position(),
                self.current.kind != TokenKind::Error,
                token_wf(self.current),
                self.previous == start.current,
                token_wf(self.previous),
                self.panic_mode ==> self.had_error,
                self.had_error <==> self.diagnostics@.len() > 0,
                start.had_error ==> self.had_error,
                self.panic_mode ==> start.panic_mode || self.diagnostics@.len()
                    > start.diagnostics@.len(),
                start.diagnostics@.len() <= self.diagnostics@.len(),
                forall|i: int| 0 <= i < start.diagnostics@.len() ==> self.diagnostics@[i]
                    == start.diagnostics@[i],
                self.number_literals == start.number_literals,
                self.code == start.code,
                self.context == start.context,
            decreases b.len() - self.scanner.position(),
        {
            let ghost q = self.scanner.position();
            proof {
                self.scanner.lemma_position_valid();
                self.scanner.law_scanner_moves_forward();
                if scan_step(b, q).kind == TokenKind::String {
                    lemma_string_token(b, q);
                }
            }
            self.current = self.scanner.scan_token();
            proof {
                if self.current.kind == TokenKind::String {
                    let e = scan_step(b, q).lexeme;
                    assert(e is Span);
                }
            }
            if self.current.kind != TokenKind::Error {
                break;
            }
            self.error_at(self.current, self.current.lexeme);
            proof {
                rounds = rounds + 1;
            }
        }
        proof {
            self.scanner.lemma_position_valid();
        }
    }

    /// Reports `message` at `token`, unless recovering from an earlier error.
    fn error_at(&mut self, token: Token<'src>, message: &str)
        requires
            old(self).panic_mode ==> old(self).had_error,
            old(self).had_error <==> old(self).diagnostics@.len() > 0,
        ensures
            reported(*old(self), *final(self), token, message@),
            final(self).panic_mode ==> final(self).had_error,
            final(self).had_error <==> final(self).diagnostics@.len() > 0,
    {
        if self.panic_mode {
            return;
        }
        self.panic_mode = true;
        let mut text = String::from_str("[line ");
        push_decimal_usize(&mut text, token.line);
        text.append("] Error");
        let ghost head = text@;
        let ghost place = if token.kind == TokenKind::Eof {
            " at end of file"@
        } else if token.kind == TokenKind::Error {
            ""@
        } else {
            " at '"@ + token.lexeme@ + "'"@
        };
        match token.kind {
            TokenKind::Eof => text.append(" at end of file"),
            TokenKind::Error => {
                proof {
                    reveal_strlit("");
                    assert(text@ =~= head + place);
                }
            },
            _ => {
                text.append(" at '");
                text.append(token.lexeme);
                text.append("'");
                proof {
                    assert(text@ =~= head + place);
                }
            },
        }
        assert(text@ =~= head + place);
        text.append(": ");
        text.append(message);
        proof {
            assert(text@ =~= error_text(token, message@));
        }
        self.diagnostics.push(text);
        self.had_error = true;
    }

    /// Reports `message` at the previous token.
    fn error(&mut self, message: &str)
        requires
            old(self).wf(),
        ensures
            reported(*old(self), *final(self), old(self).previous, message@),
            evolves(*old(self), *final(self)),
    {
        self.error_at(self.previous, message);
    }

    /// Reports `message` at the current token.
    fn error_at_current(&mut self, message: &str)
        requires
            old(self).wf(),
        ensures
            reported(*old(self), *final(self), old(self).current, message@),
            evolves(*old(self), *final(self)),
    {
        self.error_at(self.current, message);
    }

    /// Whether the current token is of kind `token_kind`.
    fn check(&self, token_kind: TokenKind) -> (r: bool)
        ensures
            r == (self.current.kind == token_kind),
    {
        self.current.kind == token_kind
    }

    /// Moves to the next token when the current one is of kind `token_kind`,
    /// and says whether it was.
    fn match_token(&mut self, token_kind: TokenKind) -> (matched: bool)
        requires
            old(self).wf(),
        ensures
            matched == (old(self).current.kind == token_kind),
            !matched ==> *final(self) == *old(self),
            matched ==> final(self).previous == old(self).current,
            matched ==> reads_next(*old(self), *final(self)),
            matched && token_kind != TokenKind::Eof ==> final(self).progress() < old(self).progress(),
            final(self).context == old(self).context,
            final(self).code == old(self).code,
            evolves(*old(self), *final(self)),
    {
        if !self.check(token_kind) {
            return false;
        }
        self.advance();
        true
    }

    /// Moves past the current token when it is of kind `token_kind`, and
    /// reports `message` at it otherwise.
    fn consume(&mut self, token_kind: TokenKind, message: &str)
        requires
            old(self).wf(),
        ensures
            old(self).current.kind == token_kind ==> final(self).previous == old(self).current,
            old(self).current.kind == token_kind ==> reads_next(*old(self), *final(self)),
            old(self).current.kind == token_kind && token_kind != TokenKind::Eof
                ==> final(self).progress() < old(self).progress(),
            old(self).current.kind != token_kind ==> reported(
                *old(self),
                *final(self),
                old(self).current,
                message@,
            ),
            final(self).context == old(self).context,
            final(self).code == old(self).code,
            evolves(*old(self), *final(self)),
    {
        if self.current.kind == token_kind {
            self.advance();
            return;
        }
        self.error_at_current(message);
    }

    /// Reports that a step must end here unless the current token starts the
    /// next step.
    fn check_end_step(&mut self)
        requires
            old(self).wf(),
        ensures
            old(self).current.kind == TokenKind::Step ==> *final(self) == *old(self),
            old(self).current.kind != TokenKind::Step ==> reported(
                *old(self),
                *final(self),
                old(self).current,
                "Expect next or final instruction in the sequence."@,
            ),
            evolves(*old(self), *final(self)),
    {
        if self.current.kind != TokenKind::Step {
            self.error_at_current("Expect next or final instruction in the sequence.");
        }
    }

    /// Appends `byte` to the code, with the line of the previous token.
    fn emit(&mut self, byte: u8)
        requires
            old(self).wf(),
        ensures
            emitted(*old(self), *final(self), seq![byte]),
            evolves(*old(self), *final(self)),
    {
        let line = self.previous.line;
        self.code.write(byte, line);
        proof {
            lemma_elses_grow(self.context, old(self).code.code@.len() as int, self.code.code@.len() as int);
            assert(self.code.lines@ =~= old(self).code.lines@ + Seq::new(1, |i: int| old(self).previous.line));
            assert(self.code.code@ =~= old(self).code.code@ + seq![byte]);
        }
    }

    /// Appends two bytes.
    fn emit_two(&mut self, first: u8, second: u8)
        requires
            old(self).wf(),
        ensures
            emitted(*old(self), *final(self), seq![first, second]),
            evolves(*old(self), *final(self)),
    {
        self.emit(first);
        self.emit(second);
        proof {
            assert(self.code.code@ =~= old(self).code.code@ + seq![first, second]);
            assert(self.code.lines@ =~= old(self).code.lines@ + Seq::new(2, |i: int| old(self).previous.line));
        }
    }

    /// Appends three bytes.
    fn emit_three(&mut self, first: u8, second: u8, third: u8)
        requires
            old(self).wf(),
        ensures
            emitted(*old(self), *final(self), seq![first, second, third]),
            evolves(*old(self), *final(self)),
    {
        self.emit_two(first, second);
        self.emit(third);
        proof {
            assert(self.code.code@ =~= old(self).code.code@ + seq![first, second, third]);
            assert(self.code.lines@ =~= old(self).code.lines@ + Seq::new(3, |i: int| old(self).previous.line));
        }
    }

    /// Adds `value` to the constants and appends the operation that loads it;
    /// reports an error when the table is full.
    fn emit_constant(&mut self, value: Value)
        requires
            old(self).wf(),
        ensures
            evolves(*old(self), *final(self)),
            old(self).code.constants_count < CONSTANTS_MAX_COUNT ==> {
                &&& final(self).code.code@ == old(self).code.code@ + seq![
                    opcode_byte(Opcode::Constant),
                    old(self).code.constants_count as u8,
                ]
                &&& final(self).code.constants@ == old(self).code.constants@.update(
                    old(self).code.constants_count as int,
                    value,
                )
                &&& final(self).code.constants_count == old(self).code.constants_count + 1
                &&& *final(self) == Compiler { code: final(self).code, ..*old(self) }
            },
            old(self).code.constants_count == CONSTANTS_MAX_COUNT ==> reported(
                *old(self),
                *final(self),
                old(self).previous,
                "Too many constants in one chunk."@,
            ),
    {
        match self.code.add_constant(value) {
            Some(constant_index) => {
                self.emit_two(Opcode::Constant.to_byte(), constant_index);
            },
            None => {
                self.error("Too many constants in one chunk.");
            },
        }
    }

    /// Appends the operations that return `nil`.
    fn emit_return(&mut self)
        requires
            old(self).wf(),
        ensures
            emitted(
                *old(self),
                *final(self),
                seq![opcode_byte(Opcode::Nil), opcode_byte(Opcode::Return)],
            ),
            evolves(*old(self), *final(self)),
    {
        self.emit_two(Opcode::Nil.to_byte(), Opcode::Return.to_byte());
    }

    /// Appends a jump of kind `operation` with a placeholder offset and gives
    /// where its offset is.
    fn emit_jump(&mut self, operation: u8) -> (index: usize)
        requires
            old(self).wf(),
        ensures
            emitted(*old(self), *final(self), seq![operation, 255u8, 255u8]),
            evolves(*old(self), *final(self)),
            index == old(self).code.code@.len() + 1,
    {
        self.emit_three(operation, 255, 255);
        self.code.code.len() - 2
    }

    /// Sets the offset at `index` so that the jump lands at the end of the
    /// code; reports an error when the distance does not fit in two bytes.
    fn patch_jump(&mut self, index: usize)
        requires
            old(self).wf(),
            index + 2 <= old(self).code.code@.len(),
        ensures
            evolves(*old(self), *final(self)),
            final(self).context == old(self).context,
            ({
                let n = old(self).code.code@.len();
                let offset = n - index - 2;
                if offset > 65535 {
                    reported(*old(self), *final(self), old(self).previous, "Loop body too large."@)
                } else {
                    &&& final(self).code.code@ == old(self).code.code@.update(
                        index as int,
                        le_bytes(offset)[0],
                    ).update(index + 1, le_bytes(offset)[1])
                    &&& *final(self) == (Compiler {
                        code: Code { code: final(self).code.code, ..old(self).code },
                        ..*old(self)
                    })
                }
            }),
    {
        let jump_offset = self.code.code.len() - index - 2;
        if jump_offset > 65535 {
            self.error("Loop body too large.");
            return;
        }
        let low = (jump_offset % 256) as u8;
        let high = (jump_offset / 256) as u8;
        self.code.code.set(index, low);
        self.code.code.set(index + 1, high);
    }

    /// Appends a backward jump to `loop_start`; reports an error when the
    /// distance does not fit in two bytes.
    fn emit_loop(&mut self, loop_start: usize)
        requires
            old(self).wf(),
            loop_start <= old(self).code.code@.len(),
        ensures
            evolves(*old(self), *final(self)),
            final(self).context == old(self).context,
            ({
                let n = old(self).code.code@.len();
                let offset = n + 3 - loop_start;
                &&& final(self).code.code@.len() >= n + 1
                &&& final(self).code.code@[n as int] == opcode_byte(Opcode::Loop)
                &&& offset <= 65535 ==> emitted(
                    *old(self),
                    *final(self),
                    seq![opcode_byte(Opcode::Loop)] + le_bytes(offset),
                )
                &&& offset > 65535 ==> {
                    &&& final(self).had_error
                    &&& final(self).code.code@ == old(self).code.code@ + seq![opcode_byte(Opcode::Loop)]
                    &&& !old(self).panic_mode ==> final(self).diagnostics@ == old(self).diagnostics@.push(
                        final(self).diagnostics@.last(),
                    ) && final(self).diagnostics@.last()@ == error_text(
                        old(self).previous,
                        "Loop body too large."@,
                    )
                    &&& old(self).panic_mode ==> final(self).diagnostics == old(self).diagnostics
                }
            }),
    {
        self.emit(Opcode::Loop.to_byte());
        let ghost after_op = *self;
        let distance = self.code.code.len() - loop_start;
        if distance > 65533 {
            self.error("Loop body too large.");
            return;
        }
        let offset = distance + 2;
        let low = (offset % 256) as u8;
        let high = (offset / 256) as u8;
        self.emit_two(low, high);
        proof {
            assert(self.code.code@ =~= old(self).code.code@ + (seq![opcode_byte(Opcode::Loop)] + le_bytes(offset as int)));
            assert(self.code.lines@ =~= old(self).code.lines@ + Seq::new(3, |i: int| old(self).previous.line));
        }
    }

    /// Opens a block: a new step counter at one.
    fn begin_scope(&mut self)
        requires
            old(self).wf(),
        ensures
            *final(self) == (Compiler {
                context: CompilerContext {
                    scope_ordering: final(self).context.scope_ordering,
                    ..old(self).context
                },
                ..*old(self)
            }),
            final(self).context.scope_ordering@ == old(self).context.scope_ordering@.push(1u16),
            evolves(*old(self), *final(self)),
    {
        self.context.scope_ordering.push(1);
    }

    /// Closes a block: drops its step counter, if there is one.
    fn end_scope(&mut self)
        requires
            old(self).wf(),
        ensures
            *final(self) == (Compiler {
                context: CompilerContext {
                    scope_ordering: final(self).context.scope_ordering,
                    ..old(self).context
                },
                ..*old(self)
            }),
            final(self).context.scope_ordering@ == if old(self).context.scope_ordering@.len() > 0 {
                old(self).context.scope_ordering@.drop_last()
            } else {
                old(self).context.scope_ordering@
            },
            evolves(*old(self), *final(self)),
    {
        let _ = self.context.scope_ordering.pop();
        proof {
            if old(self).context.scope_ordering@.len() > 0 {
                assert(self.context.scope_ordering@ =~= old(self).context.scope_ordering@.drop_last());
            }
        }
    }

    /// Declares a local named `name` in the next free slot of the function
    /// being compiled; an error when every slot is taken.
    pub fn add_local(&mut self, name: &'src str) -> (r: Result<(), &'static str>)
        requires
            old(self).context.locals@.len() == LOCALS_MAX_COUNT,
            old(self).context.locals_count <= LOCALS_MAX_COUNT,
        ensures
            old(self).context.locals_count == LOCALS_MAX_COUNT ==> *final(self) == *old(self)
                && r == Err::<(), &'static str>("Too many locals defined in scope."),
            old(self).context.locals_count < LOCALS_MAX_COUNT ==> {
                &&& r is Ok
                &&& final(self).context.locals@ == old(self).context.locals@.update(
                    old(self).context.locals_count as int,
                    name,
                )
                &&& final(self).context.locals_count == old(self).context.locals_count + 1
                &&& *final(self) == (Compiler {
                    context: CompilerContext {
                        locals: final(self).context.locals,
                        locals_count: final(self).context.locals_count,
                        ..old(self).context
                    },
                    ..*old(self)
                })
            },
            old(self).wf() ==> evolves(*old(self), *final(self)),
    {
        if self.context.locals_count == LOCALS_MAX_COUNT {
            return Err("Too many locals defined in scope.");
        }
        let count = self.context.locals_count;
        self.context.locals.set(count, name);
        self.context.locals_count = count + 1;
        Ok(())
    }

    /// Declares a local named `name`, reporting an error when a local of
    /// that name exists already or when every slot is taken.
    fn define_variable(&mut self, name: &'src str)
        requires
            old(self).wf(),
        ensures
            evolves(*old(self), *final(self)),
            final(self).code == old(self).code,
            final(self).context.scope_ordering == old(self).context.scope_ordering,
            final(self).context.active_else == old(self).context.active_else,
            final(self).previous == old(self).previous,
            final(self).current == old(self).current,
            final(self).scanner == old(self).scanner,
            local_match(old(self).context.locals@, LOCALS_MAX_COUNT as int, name@) >= 0
                ==> final(self).had_error,
            old(self).context.locals_count == LOCALS_MAX_COUNT ==> final(self).had_error,
            old(self).context.locals_count < LOCALS_MAX_COUNT ==> {
                &&& final(self).context.locals@ == old(self).context.locals@.update(
                    old(self).context.locals_count as int,
                    name,
                )
                &&& final(self).context.locals_count == old(self).context.locals_count + 1
            },
    {
        let mut has_match_name_error = false;
        let mut i: usize = self.context.locals.len();
        while i > 0
            invariant
                i <= self.context.locals@.len() == LOCALS_MAX_COUNT,
                has_match_name_error || local_match(self.context.locals@, i as int, name@) >= 0
                    <==> local_match(self.context.locals@, LOCALS_MAX_COUNT as int, name@) >= 0,
            decreases i,
        {
            if str_equal(self.context.locals[i - 1], name) {
                has_match_name_error = true;
            }
            i = i - 1;
        }
        if has_match_name_error {
            self.error("Already a variable with this name in this scope.");
        }
        let ghost before = *self;
        match self.add_local(name) {
            Ok(()) => {},
            Err(err) => self.error(err),
        }
    }

    /// Starts compiling a function inside the one being compiled.
    fn begin_compiler(&mut self)
        requires
            old(self).wf(),
        ensures
            moves_on(*old(self), *final(self)),
            final(self).context.enclosing == Some(Box::new(old(self).context)),
            final(self).context.scope_ordering@ == seq![1u16],
            final(self).context.locals_count == 0,
            final(self).context.active_else is None,
            *final(self) == (Compiler { context: final(self).context, ..*old(self) }),
    {
        let mut compiler_context = CompilerContext::new();
        std::mem::swap(&mut compiler_context, &mut self.context);
        self.context.enclosing = Some(Box::new(compiler_context));
    }

    /// Ends compiling the current function: appends its return and goes back
    /// to the function enclosing it, if any.
    fn end_compiler(&mut self)
        requires
            old(self).wf(),
        ensures
            moves_on(*old(self), *final(self)),
            final(self).code.code@ == old(self).code.code@ + seq![
                opcode_byte(Opcode::Nil),
                opcode_byte(Opcode::Return),
            ],
            final(self).code.constants == old(self).code.constants,
            final(self).code.constants_count == old(self).code.constants_count,
            final(self).previous == old(self).previous,
            final(self).current == old(self).current,
            final(self).had_error == old(self).had_error,
            final(self).context == match old(self).context.enclosing {
                Some(parent) => *parent,
                None => old(self).context,
            },
    {
        self.emit_return();
        match self.context.enclosing.take() {
            Some(parent) => {
                self.context = *parent;
            },
            None => {},
        }
    }

    /// Skips tokens after an error up to one that starts a statement (moving
    /// past it) or a section or step, or the end of the source.
    fn synchronise(&mut self)
        requires
            old(self).wf(),
        ensures
            evolves(*old(self), *final(self)),
            final(self).code == old(self).code,
            final(self).context == old(self).context,
            !final(self).panic_mode || final(self).diagnostics@.len() > old(self).diagnostics@.len(),
            final(self).current.kind == TokenKind::Eof || starts_statement(final(self).previous.kind)
                || starts_section(final(self).current.kind),
    {
        self.panic_mode = false;
        while self.current.kind != TokenKind::Eof
            invariant
                self.wf(),
                evolves(*old(self), *self),
                self.code == old(self).code,
                self.context == old(self).context,
                !self.panic_mode || self.diagnostics@.len() > old(self).diagnostics@.len(),
            decreases self.progress(),
        {
            match self.current.kind {
                TokenKind::If | TokenKind::While | TokenKind::Print | TokenKind::Return => {
                    self.advance();
                    return;
                },
                TokenKind::Ingredients | TokenKind::Utensils | TokenKind::Steps | TokenKind::Step => {
                    return;
                },
                _ => self.advance(),
            }
        }
    }

    /// Parses an expression whose operators bind at least as tightly as
    /// `precedence`, appending its code. A variable name may be preceded by
    /// the marker of an ingredient, which allows an assignment to it.
    pub fn parse_precedence(&mut self, precedence: Precedence)
        requires
            old(self).wf(),
            rank(precedence) >= 1,
        ensures
            evolves(*old(self), *final(self)),
            final(self).context == old(self).context,
        decreases old(self).progress(), 1nat,
    {
        let level = precedence_level(precedence);
        let can_assign = if self.current.kind == TokenKind::Var {
            self.advance();
            level <= 1
        } else {
            false
        };
        let prefix_rule = Precedence::get_rule(rule_kind(self.current.kind)).prefix;
        if prefix_rule == ParseFunctionKind::Nothing {
            match self.current.kind {
                TokenKind::Ingredients | TokenKind::Utensils | TokenKind::Steps | TokenKind::Eof => {
                    self.error_at_current("Expect 'end' step.")
                },
                _ => {
                    self.error_at_current("Expect expression.");
                    self.advance();
                },
            }
            return;
        }
        self.advance();
        self.execute_rule(prefix_rule, can_assign);
        loop
            invariant
                self.wf(),
                evolves(*old(self), *self),
                self.context == old(self).context,
                self.progress() < old(self).progress(),
                level == rank(precedence),
                level >= 1,
            decreases self.progress(),
        {
            let current_level = precedence_level(
                Precedence::get_rule(rule_kind(self.current.kind)).precedence,
            );
            if level > current_level {
                break;
            }
            let can_assign = self.previous.kind == TokenKind::Var && level <= 1;
            self.advance();
            let infix_rule = Precedence::get_rule(rule_kind(self.previous.kind)).infix;
            self.execute_rule(infix_rule, can_assign);
        }
        if level <= 1 && self.match_token(TokenKind::Equal) {
            self.error("Invalid assignment target.");
        }
    }

    /// Runs the parsing routine `kind` for the token just read.
    fn execute_rule(&mut self, kind: ParseFunctionKind, can_assign: bool)
        requires
            old(self).wf(),
            kind == prefix_rule(rule_kind_spec(old(self).previous.kind)) || kind == infix_rule(
                rule_kind_spec(old(self).previous.kind),
            ),
        ensures
            evolves(*old(self), *final(self)),
            final(self).context == old(self).context,
            kind == ParseFunctionKind::Nothing ==> *final(self) == *old(self),
            kind == ParseFunctionKind::Unary ==> ends_with(
                *final(self),
                seq![
                    if old(self).previous.kind == TokenKind::Minus {
                        opcode_byte(Opcode::Negate)
                    } else {
                        opcode_byte(Opcode::Not)
                    },
                ],
            ),
            kind == ParseFunctionKind::Literal ==> emitted(
                *old(self),
                *final(self),
                seq![literal_byte(old(self).previous.kind)],
            ),
            kind == ParseFunctionKind::Binary && binary_bytes(old(self).previous.kind).len() > 0
                ==> ends_with(*final(self), binary_bytes(old(self).previous.kind)),
            kind == ParseFunctionKind::Call && old(self).previous.kind
                == TokenKind::BareFunctionInvocation ==> emitted(
                *old(self),
                *final(self),
                seq![opcode_byte(Opcode::Call), 0u8],
            ),
        decreases old(self).progress(), 5nat,
    {
        match kind {
            ParseFunctionKind::Nothing => {},
            ParseFunctionKind::Grouping => self.grouping(),
            ParseFunctionKind::Unary => self.unary(),
            ParseFunctionKind::Binary => self.binary(),
            ParseFunctionKind::Number => self.number(),
            ParseFunctionKind::Literal => self.literal(),
            ParseFunctionKind::String => self.string(),
            ParseFunctionKind::Variable => self.variable(can_assign),
            ParseFunctionKind::And => self.and(),
            ParseFunctionKind::Or => self.or(),
            ParseFunctionKind::Call => self.call(),
        }
    }

    /// Parses an expression, appending its code.
    pub fn expression(&mut self)
        requires
            old(self).wf(),
        ensures
            evolves(*old(self), *final(self)),
            final(self).context == old(self).context,
        decreases old(self).progress(), 2nat,
    {
        self.parse_precedence(Precedence::Assignment);
    }

    /// Parses the rest of a grouped expression; after `(` the closing `)`.
    fn grouping(&mut self)
        requires
            old(self).wf(),
        ensures
            evolves(*old(self), *final(self)),
            final(self).context == old(self).context,
            old(self).previous.kind == TokenKind::LeftParen && !final(self).had_error
                ==> final(self).previous.kind == TokenKind::RightParen,
        decreases old(self).progress(), 3nat,
    {
        let is_left_paren = self.previous.kind == TokenKind::LeftParen;
        self.expression();
        if is_left_paren {
            self.consume(TokenKind::RightParen, "Expect ')' after grouping expression.");
        }
    }

    /// Parses the operand of a prefix `-` or `!` and appends the operation.
    fn unary(&mut self)
        requires
            old(self).wf(),
            old(self).previous.kind == TokenKind::Minus || old(self).previous.kind
                == TokenKind::Bang,
        ensures
            evolves(*old(self), *final(self)),
            final(self).context == old(self).context,
            ends_with(
                *final(self),
                seq![
                    if old(self).previous.kind == TokenKind::Minus {
                        opcode_byte(Opcode::Negate)
                    } else {
                        opcode_byte(Opcode::Not)
                    },
                ],
            ),
        decreases old(self).progress(), 3nat,
    {
        let operator_kind = self.previous.kind;
        self.parse_precedence(Precedence::Unary);
        let ghost before = *self;
        match operator_kind {
            TokenKind::Minus => self.emit(Opcode::Negate.to_byte()),
            _ => self.emit(Opcode::Not.to_byte()),
        }
        proof {
            let d = self.code.code@;
            assert(d.subrange(d.len() - 1, d.len() as int) =~= seq![d.last()]);
        }
    }

    /// Parses the right operand of an infix operator, one level tighter than
    /// the operator, and appends the operations that combine the operands;
    /// `>=` and `<=` have none and are reported.
    fn binary(&mut self)
        requires
            old(self).wf(),
            infix_rule(rule_kind_spec(old(self).previous.kind)) == ParseFunctionKind::Binary,
        ensures
            evolves(*old(self), *final(self)),
            final(self).context == old(self).context,
            binary_bytes(old(self).previous.kind).len() > 0 ==> ends_with(
                *final(self),
                binary_bytes(old(self).previous.kind),
            ),
            binary_bytes(old(self).previous.kind).len() == 0 ==> final(self).had_error,
        decreases old(self).progress(), 3nat,
    {
        let operator_kind = self.previous.kind;
        let parse_rule = Precedence::get_rule(rule_kind(operator_kind));
        let next = parse_rule.precedence.next();
        self.parse_precedence(next);
        let ghost before = *self;
        match operator_kind {
            TokenKind::Plus => self.emit(Opcode::Add.to_byte()),
            TokenKind::Minus => self.emit(Opcode::Subtract.to_byte()),
            TokenKind::Star => self.emit(Opcode::Multiply.to_byte()),
            TokenKind::Slash => self.emit(Opcode::Divide.to_byte()),
            TokenKind::EqualEqual => self.emit(Opcode::Equal.to_byte()),
            TokenKind::Greater => self.emit(Opcode::Greater.to_byte()),
            TokenKind::Less => self.emit(Opcode::Less.to_byte()),
            TokenKind::BangEqual => self.emit_two(Opcode::Equal.to_byte(), Opcode::Not.to_byte()),
            _ => {
                self.error("Unsupported operator.");
                return;
            },
        }
        proof {
            let d = self.code.code@;
            let bytes = binary_bytes(operator_kind);
            assert(d.subrange(d.len() - bytes.len(), d.len() as int) =~= bytes);
        }
    }

    /// Appends the constant number written by the previous token, whose value
    /// the table of number literals gives; reports an error when it has none.
    fn number(&mut self)
        requires
            old(self).wf(),
        ensures
            evolves(*old(self), *final(self)),
            final(self).context == old(self).context,
            ({
                let c = old(self).code;
                match literal_bits(old(self).number_literals@, old(self).previous.lexeme@) {
                    None => reported(*old(self), *final(self), old(self).previous, "Could not cast lexeme to number"@),
                    Some(bits) => c.constants_count < CONSTANTS_MAX_COUNT ==> {
                        &&& final(self).code.code@ == c.code@ + seq![opcode_byte(Opcode::Constant), c.constants_count as u8]
                        &&& final(self).code.constants@[c.constants_count as int] == Value::Number(bits)
                    },
                }
            }),
    {
        let mut i: usize = 0;
        let ghost table = self.number_literals@;
        let text = self.previous.lexeme;
        proof {
            assert(table.subrange(0, table.len() as int) =~= table);
        }
        while i < self.number_literals.len()
            invariant
                table == self.number_literals@,
                *self == *old(self),
                self.wf(),
                text == self.previous.lexeme,
                i <= table.len(),
                literal_bits(table, text@) == literal_bits(
                    table.subrange(i as int, table.len() as int),
                    text@,
                ),
            decreases table.len() - i,
        {
            let ghost rest = table.subrange(i as int, table.len() as int);
            proof {
                assert(rest.drop_first() =~= table.subrange(i + 1, table.len() as int));
                assert(rest[0] == table[i as int]);
            }
            if str_equal(self.number_literals[i].0.as_str(), text) {
                let bits = self.number_literals[i].1;
                self.emit_constant(Value::Number(bits));
                return;
            }
            i = i + 1;
        }
        self.error("Could not cast lexeme to number");
    }

    /// Appends the operation that pushes the literal just read.
    fn literal(&mut self)
        requires
            old(self).wf(),
            prefix_rule(rule_kind_spec(old(self).previous.kind)) == ParseFunctionKind::Literal,
        ensures
            evolves(*old(self), *final(self)),
            final(self).context == old(self).context,
            emitted(*old(self), *final(self), seq![literal_byte(old(self).previous.kind)]),
    {
        match self.previous.kind {
            TokenKind::Nil => self.emit(Opcode::Nil.to_byte()),
            TokenKind::True => self.emit(Opcode::True.to_byte()),
            _ => self.emit(Opcode::False.to_byte()),
        }
    }

    /// Appends the constant string written by the previous token, without its
    /// quotes.
    fn string(&mut self)
        requires
            old(self).wf(),
            old(self).previous.kind == TokenKind::String,
        ensures
            evolves(*old(self), *final(self)),
            final(self).context == old(self).context,
            old(self).code.constants_count < CONSTANTS_MAX_COUNT ==> {
                let c = old(self).code;
                let bytes = old(self).previous.lexeme.spec_bytes();
                &&& final(self).code.code@ == c.code@ + seq![opcode_byte(Opcode::Constant), c.constants_count as u8]
                &&& final(self).code.constants@[c.constants_count as int] matches Value::String(t)
                    && t@ == decode_utf8(bytes.subrange(1, bytes.len() - 1))
            },
            old(self).code.constants_count == CONSTANTS_MAX_COUNT ==> reported(
                *old(self),
                *final(self),
                old(self).previous,
                "Too many constants in one chunk."@,
            ),
    {
        let lexeme = inner_text(self.previous.lexeme);
        proof {
            broadcast use encode_utf8_decode_utf8;
            assert(lexeme@ == decode_utf8(lexeme.spec_bytes()));
        }
        self.emit_constant(Value::String(lexeme.to_string()));
    }

    /// Parses a use of, or an assignment to, the variable just read.
    pub fn variable(&mut self, can_assign: bool)
        requires
            old(self).wf(),
        ensures
            evolves(*old(self), *final(self)),
            final(self).context == old(self).context,
            reads_variable(*old(self), *final(self), old(self).previous.lexeme@, can_assign),
        decreases old(self).progress(), 4nat,
    {
        self.named_variable(self.previous.lexeme, can_assign);
    }

    /// Appends the operation that reads the variable `token_name`, found by
    /// slot and by how many functions out it is; or parses an assignment to
    /// it when `can_assign` and `=` follows.
    pub fn named_variable(&mut self, token_name: &str, can_assign: bool)
        requires
            old(self).wf(),
        ensures
            evolves(*old(self), *final(self)),
            final(self).context == old(self).context,
            reads_variable(*old(self), *final(self), token_name@, can_assign),
        decreases old(self).progress(), 3nat,
    {
        let (get_operation, set_operation, index, depth) = match self.context.resolve_local(token_name, 0) {
            Ok((index, depth)) => (Opcode::GetLocal.to_byte(), Opcode::SetLocal.to_byte(), index, depth),
            Err(err) => {
                self.error(err);
                return;
            },
        };
        if can_assign && self.match_token(TokenKind::Equal) {
            self.expression();
            let ghost before = *self;
            self.emit_three(set_operation, index, depth);
            proof {
                let d = self.code.code@;
                assert(d.subrange(d.len() - 3, d.len() as int) =~= seq![set_operation, index, depth]);
            }
        } else {
            self.emit_three(get_operation, index, depth);
        }
    }

    /// Parses the right operand of `and`, skipped when the left one is false.
    fn and(&mut self)
        requires
            old(self).wf(),
        ensures
            evolves(*old(self), *final(self)),
            final(self).context == old(self).context,
            final(self).code.code@.len() >= old(self).code.code@.len() + 4,
        decreases old(self).progress(), 3nat,
    {
        let and_jump = self.emit_jump(Opcode::JumpIfFalse.to_byte());
        self.emit(Opcode::Pop.to_byte());
        self.parse_precedence(Precedence::And);
        self.patch_jump(and_jump);
    }

    /// Parses the right operand of `or`, skipped when the left one is true.
    fn or(&mut self)
        requires
            old(self).wf(),
        ensures
            evolves(*old(self), *final(self)),
            final(self).context == old(self).context,
            final(self).code.code@.len() >= old(self).code.code@.len() + 7,
        decreases old(self).progress(), 3nat,
    {
        let else_jump = self.emit_jump(Opcode::JumpIfFalse.to_byte());
        let end_jump = self.emit_jump(Opcode::Jump.to_byte());
        self.patch_jump(else_jump);
        self.emit(Opcode::Pop.to_byte());
        self.parse_precedence(Precedence::Or);
        self.patch_jump(end_jump);
    }

    /// Parses a call: `now` calls with no arguments; otherwise the arguments
    /// follow, and their number goes with the call.
    fn call(&mut self)
        requires
            old(self).wf(),
        ensures
            evolves(*old(self), *final(self)),
            final(self).context == old(self).context,
            old(self).previous.kind == TokenKind::BareFunctionInvocation ==> emitted(
                *old(self),
                *final(self),
                seq![opcode_byte(Opcode::Call), 0u8],
            ),
            old(self).previous.kind != TokenKind::BareFunctionInvocation && !final(self).had_error
                ==> final(self).code.code@.len() >= 2 && final(self).code.code@[final(self).code.code@.len() - 2]
                == opcode_byte(Opcode::Call) && final(self).code.code@.last() >= 1,
        decreases old(self).progress(), 4nat,
    {
        if self.previous.kind == TokenKind::BareFunctionInvocation {
            self.emit_two(Opcode::Call.to_byte(), 0);
            return;
        }
        let argument_count = match self.argument_list() {
            Some(count) => count,
            None => {
                self.error("Can't have more than 10 arguments.");
                return;
            },
        };
        self.emit_two(Opcode::Call.to_byte(), argument_count);
    }

    /// Parses the arguments of a call, written `a`, `a and b` or
    /// `a, b and c`, and gives their number, or `None` once there are more
    /// than 255; reports a list that does not keep that form.
    fn argument_list(&mut self) -> (count: Option<u8>)
        requires
            old(self).wf(),
        ensures
            evolves(*old(self), *final(self)),
            final(self).context == old(self).context,
            count matches Some(n) ==> n >= 1,
        decreases old(self).progress(), 3nat,
    {
        let mut argument_count: u8 = 0;
        let mut order = ArgumentPosition::First;
        loop
            invariant
                self.wf(),
                evolves(*old(self), *self),
                self.context == old(self).context,
            ensures
                self.wf(),
                evolves(*old(self), *self),
                self.context == old(self).context,
                argument_count >= 1,
            decreases 255 - argument_count,
        {
            self.expression();
            if argument_count == FUNCTION_ARITY_MAX_COUNT {
                return None;
            }
            argument_count = argument_count + 1;
            match self.current.kind {
                TokenKind::Comma => {
                    if order == ArgumentPosition::Last {
                        self.error_at_current("Invalid ',' after final argument.");
                    }
                    order = ArgumentPosition::Middle;
                    self.advance();
                },
                TokenKind::ParameterAnd => {
                    if order == ArgumentPosition::Last {
                        self.error_at_current("Invalid 'and' after final argument.");
                    }
                    order = ArgumentPosition::Last;
                    self.advance();
                },
                TokenKind::Step => {
                    if order == ArgumentPosition::Middle {
                        self.error_at_current(
                            "Function parameters should be a list where the final element is preceded by 'and'.",
                        );
                    }
                    break;
                },
                _ => {
                    if order == ArgumentPosition::Middle {
                        self.error_at_current("function argument list incomplete");
                    } else {
                        break;
                    }
                },
            }
        }
        Some(argument_count)
    }
}

impl<'src> Compiler<'src> {
    /// A compiler at the start of `source`; the values of its number literals
    /// are given by `number_literals`. The native functions `time` and `stir`
    /// are loaded as the first two constants and declared as the first two
    /// locals. It is ready to compile when the source ends with a NUL byte.
    pub fn new(source: &'src str, number_literals: Vec<(String, u64)>) -> (c: Self)
        ensures
            terminated(source.spec_bytes()) ==> c.wf(),
            c.scanner.bytes() == source.spec_bytes(),
            c.scanner.position() == 0,
            c.current.kind == TokenKind::Error,
            c.previous.kind == TokenKind::Error,
            !c.had_error,
            !c.panic_mode,
            c.number_literals == number_literals,
            c.context.enclosing is None,
            c.context.scope_ordering@ == seq![1u16],
            c.context.active_else is None,
            c.context.locals_count == 2,
            c.context.locals@[0]@ == "time"@,
            c.context.locals@[1]@ == "stir"@,
            c.code.code@ == seq![opcode_byte(Opcode::Constant), 0u8, opcode_byte(Opcode::Constant), 1u8],
            c.code.constants_count == 2,
            c.code.constants@[0] == Value::NativeFunction(0),
            c.code.constants@[1] == Value::NativeFunction(1),
    {
        let initial_token = Token::new("", 1, TokenKind::Error);
        let context = CompilerContext::new();
        let mut compiler = Self {
            scanner: Scanner::new(source),
            previous: initial_token,
            current: initial_token,
            had_error: false,
            panic_mode: false,
            code: Code::new(),
            context,
            diagnostics: Vec::new(),
            number_literals,
        };
        let natives = declare_native_functions();
        let (time_name, time_function) = natives[0];
        compiler.load_native(time_function);
        match compiler.add_local(time_name) {
            Ok(()) => {},
            Err(err) => compiler.error_at(compiler.previous, err),
        }
        let (stir_name, stir_function) = natives[1];
        compiler.load_native(stir_function);
        match compiler.add_local(stir_name) {
            Ok(()) => {},
            Err(err) => compiler.error_at(compiler.previous, err),
        }
        proof {
            assert(compiler.code.code@ =~= seq![opcode_byte(Opcode::Constant), 0u8, opcode_byte(Opcode::Constant), 1u8]);
        }
        compiler
    }

    /// Adds the native function `function` to the constants and appends the
    /// operation that loads it, at the start of the code; reports an error
    /// when the constant table is full.
    fn load_native(&mut self, function: usize)
        requires
            old(self).code.wf(),
            old(self).panic_mode ==> old(self).had_error,
            old(self).had_error <==> old(self).diagnostics@.len() > 0,
        ensures
            final(self).code.wf(),
            final(self).panic_mode ==> final(self).had_error,
            final(self).had_error <==> final(self).diagnostics@.len() > 0,
            old(self).code.constants_count < CONSTANTS_MAX_COUNT ==> {
                &&& final(self).code.code@ == old(self).code.code@ + seq![
                    opcode_byte(Opcode::Constant),
                    old(self).code.constants_count as u8,
                ]
                &&& final(self).code.constants@ == old(self).code.constants@.update(
                    old(self).code.constants_count as int,
                    Value::NativeFunction(function),
                )
                &&& final(self).code.constants_count == old(self).code.constants_count + 1
                &&& *final(self) == Compiler { code: final(self).code, ..*old(self) }
            },
            old(self).code.constants_count == CONSTANTS_MAX_COUNT ==> reported(
                *old(self),
                *final(self),
                old(self).previous,
                "Too many constants in one chunk."@,
            ),
    {
        match self.code.add_constant(Value::NativeFunction(function)) {
            Some(constant_index) => {
                let line = self.previous.line;
                self.code.write(Opcode::Constant.to_byte(), line);
                self.code.write(constant_index, line);
                proof {
                    assert(self.code.code@ =~= old(self).code.code@ + seq![
                        opcode_byte(Opcode::Constant),
                        old(self).code.constants_count as u8,
                    ]);
                }
            },
            None => {
                self.error_at(self.previous, "Too many constants in one chunk.");
            },
        }
    }

    /// Compiles the whole recipe: its title, its ingredients, its utensils and
    /// its steps, then the return from the script. Gives the code, or `None`
    /// when an error was reported, together with the error reports in the
    /// order they were made.
    pub fn compile(self) -> (result: (Option<Code>, Vec<String>))
        requires
            self.wf(),
            self.context.scope_ordering@.len() >= 1,
        ensures
            result.0 is Some <==> result.1@.len() == 0,
            self.diagnostics@.len() <= result.1@.len(),
            forall|i: int| 0 <= i < self.diagnostics@.len() ==> result.1@[i] == self.diagnostics@[i],
            result.0 matches Some(c) ==> {
                &&& c.wf()
                &&& c.code@.len() >= self.code.code@.len() + 2
                &&& c.code@.subrange(c.code@.len() - 2, c.code@.len() as int) == seq![
                    opcode_byte(Opcode::Nil),
                    opcode_byte(Opcode::Return),
                ]
                &&& forall|i: int| 0 <= i < self.code.constants_count ==> c.constants@[i]
                    == self.code.constants@[i]
            },
            scan_step(self.scanner.bytes(), self.scanner.position()).kind != TokenKind::Recipe
                ==> result.0 is None,
            bare_recipe_follows(self) && !self.had_error ==> (result.0 matches Some(c) && c.code@
                == self.code.code@ + seq![opcode_byte(Opcode::Nil), opcode_byte(Opcode::Return)]),
    {
        let ghost ok = bare_recipe_follows(self) && !self.had_error;
        let ghost b = self.scanner.bytes();
        let ghost t0 = scan_step(b, self.scanner.position());
        let ghost t1 = scan_step(b, t0.next);
        let ghost start_code = self.code;
        let mut compiler = self;
        compiler.advance();
        assert(ok ==> compiler.current.kind == TokenKind::Recipe);
        assert(ok ==> !compiler.had_error);
        assert(ok ==> compiler.scanner.position() == t0.next);
        assert(ok ==> compiler.scanner.bytes() == b);
        assert(ok ==> compiler.code == start_code);
        compiler.parse_title();
        assert(ok ==> compiler.current.kind == TokenKind::Steps && !compiler.had_error
            && compiler.scanner.position() == t1.next && compiler.scanner.bytes() == b
            && compiler.code == start_code);
        compiler.parse_ingredients();
        compiler.parse_utensils();
        compiler.consume(TokenKind::Steps, "Expect 'Recipe' to contain 'Steps' section");
        assert(ok ==> compiler.current.kind != TokenKind::Step && !compiler.had_error
            && compiler.code == start_code);
        compiler.block();
        assert(ok ==> !compiler.had_error && compiler.code == start_code);
        let ghost before_return = compiler;
        compiler.emit_return();
        proof {
            let d = compiler.code.code@;
            assert(d.subrange(d.len() - 2, d.len() as int) =~= seq![
                opcode_byte(Opcode::Nil),
                opcode_byte(Opcode::Return),
            ]);
        }
        let diagnostics = compiler.diagnostics;
        if compiler.had_error {
            (None, diagnostics)
        } else {
            (Some(compiler.code), diagnostics)
        }
    }

    /// Reads the title; a recipe must begin with `Recipe`.
    fn parse_title(&mut self)
        requires
            old(self).wf(),
            old(self).context.scope_ordering@.len() >= 1,
        ensures
            evolves(*old(self), *final(self)),
            final(self).context == old(self).context,
            old(self).current.kind != TokenKind::Recipe ==> final(self).had_error,
            old(self).current.kind == TokenKind::Recipe ==> reads_next(*old(self), *final(self)),
            final(self).code == old(self).code,
    {
        if !self.match_token(TokenKind::Recipe) {
            self.error("Script must begin with 'Recipe'.");
        }
    }

    /// Whether the current token ends the ingredients section.
    fn is_end_ingredients(&self) -> (r: bool)
        ensures
            r == (self.current.kind == TokenKind::Utensils || self.current.kind == TokenKind::Steps
                || self.current.kind == TokenKind::Eof),
    {
        self.check(TokenKind::Utensils) || self.check(TokenKind::Steps) || self.check(TokenKind::Eof)
    }

    /// Whether the current token ends the utensils section.
    fn is_end_utensils(&self) -> (r: bool)
        ensures
            r == (self.current.kind == TokenKind::Steps || self.current.kind == TokenKind::Eof),
    {
        self.check(TokenKind::Steps) || self.check(TokenKind::Eof)
    }

    /// Reads the ingredients section, if there is one: ingredient
    /// declarations up to the next section.
    fn parse_ingredients(&mut self)
        requires
            old(self).wf(),
            old(self).context.scope_ordering@.len() >= 1,
        ensures
            evolves(*old(self), *final(self)),
            final(self).context.scope_ordering == old(self).context.scope_ordering,
            old(self).current.kind != TokenKind::Ingredients ==> *final(self) == *old(self),
    {
        if !self.match_token(TokenKind::Ingredients) {
            return;
        }
        while !self.is_end_ingredients()
            invariant
                self.wf(),
                evolves(*old(self), *self),
                self.context.scope_ordering == old(self).context.scope_ordering,
            decreases self.progress(),
        {
            if !self.check(TokenKind::Var) {
                self.error_at_current("Expect ingredient name.");
                self.synchronise();
                break;
            }
            self.var_declaration();
        }
    }

    /// Reads the utensils section, if there is one: function declarations
    /// up to the steps.
    fn parse_utensils(&mut self)
        requires
            old(self).wf(),
            old(self).context.scope_ordering@.len() >= 1,
        ensures
            moves_on(*old(self), *final(self)),
            final(self).context.scope_ordering@.len() >= 1,
            old(self).current.kind != TokenKind::Utensils ==> *final(self) == *old(self),
    {
        if !self.match_token(TokenKind::Utensils) {
            return;
        }
        while !self.is_end_utensils()
            invariant
                self.wf(),
                moves_on(*old(self), *self),
                self.context.scope_ordering@.len() >= 1,
            decreases self.progress(),
        {
            if !self.check(TokenKind::FunIdent) {
                self.error_at_current("Expect utensil name.");
                self.synchronise();
                break;
            }
            self.fun_declaration();
        }
    }

    /// Parses a utensil: its name, then the function.
    fn fun_declaration(&mut self)
        requires
            old(self).wf(),
            old(self).context.scope_ordering@.len() >= 1,
        ensures
            moves_on(*old(self), *final(self)),
            final(self).context.scope_ordering@.len() >= 1,
            old(self).current.kind == TokenKind::FunIdent ==> final(self).progress() < old(self).progress(),
            !final(self).had_error ==> {
                &&& final(self).context.enclosing == old(self).context.enclosing
                &&& final(self).context.scope_ordering == old(self).context.scope_ordering
                &&& final(self).context.active_else == old(self).context.active_else
                &&& final(self).context.locals_count == old(self).context.locals_count + 1
                &&& final(self).context.locals@ == old(self).context.locals@.update(
                    old(self).context.locals_count as int,
                    old(self).current.lexeme,
                )
            },
    {
        self.consume(TokenKind::FunIdent, "Expect utensil identifier name.");
        let name = self.previous.lexeme;
        self.function();
        self.define_variable(name);
    }

    /// Parses a function after its name: its parameters after `with`, written
    /// `a`, `a and b` or `a, b and c`, then its steps, each a local of its
    /// own. Its code follows a jump over it; the function, starting right
    /// after that jump, is added as a constant and loaded after its code.
    #[verifier::rlimit(40)]
    fn function(&mut self)
        requires
            old(self).wf(),
            old(self).context.scope_ordering@.len() >= 1,
        ensures
            moves_on(*old(self), *final(self)),
            final(self).context.scope_ordering@.len() >= 1,
            !final(self).had_error ==> {
                &&& final(self).context == old(self).context
                &&& made_function(*old(self), *final(self))
            },
            old(self).current.kind != TokenKind::LeftParen && old(self).current.kind
                != TokenKind::Step && !old(self).had_error && old(self).code.constants_count
                < CONSTANTS_MAX_COUNT ==> !final(self).had_error,
    {
        let ghost s0 = *self;
        let ghost b = self.scanner.bytes();
        let ghost total = declared_parameters(s0);
        self.begin_compiler();
        self.begin_scope();
        let function_name = self.previous.lexeme;
        let mut function_arity: u8 = 0;
        let ghost s1 = *self;
        if self.check(TokenKind::LeftParen) {
            let ghost mut q: int = self.scanner.position();
            self.advance();
            let mut order = ArgumentPosition::First;
            loop
                invariant_except_break
                    !self.had_error ==> self.current.kind == scan_step(b, q).kind
                        && self.scanner.position() == scan_step(b, q).next,
                    !self.had_error && function_arity <= 254 ==> total == function_arity
                        + parameter_count(b, q, (254 - function_arity) as nat),
                invariant
                    self.wf(),
                    s0 == *old(self),
                    b == s0.scanner.bytes(),
                    self.scanner.bytes() == b,
                    s0.current.kind == TokenKind::LeftParen,
                    total == declared_parameters(s0),
                    q == s0.scanner.position() || function_arity > 0,
                    function_arity == 0 ==> q == s0.scanner.position(),
                    moves_on(s0, *self),
                    self.context.enclosing == s1.context.enclosing,
                    self.context.scope_ordering@.len() >= 1,
                    self.code.code@.len() == s0.code.code@.len(),
                    self.code.constants_count == s0.code.constants_count,
                ensures
                    self.wf(),
                    moves_on(s0, *self),
                    self.context.enclosing == s1.context.enclosing,
                    self.context.scope_ordering@.len() >= 1,
                    self.code.code@.len() == s0.code.code@.len(),
                    self.code.constants_count == s0.code.constants_count,
                    !self.had_error ==> total == function_arity,
                decreases 255 - function_arity,
            {
                if function_arity == FUNCTION_ARITY_MAX_COUNT {
                    self.error_at_current("Can't have more than 10 parameters.");
                    return;
                }
                function_arity = function_arity + 1;
                self.consume(TokenKind::Ident, "Expect parameter name.");
                self.define_variable(self.previous.lexeme);
                let ghost at_separator = self.scanner.position();
                match self.current.kind {
                    TokenKind::Comma => {
                        if order == ArgumentPosition::Last {
                            self.error("Invalid ',' after final argument.");
                        }
                        order = ArgumentPosition::Middle;
                        self.advance();
                        proof {
                            q = at_separator;
                        }
                    },
                    TokenKind::ParameterAnd => {
                        if order == ArgumentPosition::Last {
                            self.error("Invalid 'and' after final argument.");
                        }
                        order = ArgumentPosition::Last;
                        self.advance();
                        proof {
                            q = at_separator;
                        }
                    },
                    TokenKind::Step => {
                        if order == ArgumentPosition::Middle {
                            self.error(
                                "Function parameters should be a list where the final element is preceded by 'and'.",
                            );
                        }
                        break;
                    },
                    _ => {
                        if order == ArgumentPosition::Middle {
                            self.error_at_current("function argument list incomplete");
                        } else {
                            break;
                        }
                    },
                }
            }
        }
        let ghost n: int = self.code.code@.len() as int;
        let fun_jump = self.emit_jump(Opcode::Jump.to_byte());
        let function = Function {
            name: function_name.to_string(),
            arity: function_arity,
            chunk: Code::new(),
            kind: FunctionKind::Function,
            ip_start: self.code.code.len(),
        };
        let ghost made = function;
        let constant_index = match self.code.add_constant(Value::Function(Rc::new(function))) {
            Some(constant_index) => constant_index,
            None => {
                self.error("Too many constants in one chunk.");
                return;
            },
        };
        let ghost s2 = *self;
        self.block();
        let ghost s3 = *self;
        self.end_compiler();
        let ghost m: int = self.code.code@.len() as int;
        let ghost s4 = *self;
        self.patch_jump(fun_jump);
        let ghost s5 = *self;
        self.emit_two(Opcode::Constant.to_byte(), constant_index);
        proof {
            if !self.had_error {
                assert(s3.context.enclosing == Some(Box::new(s0.context)));
                assert(self.code.code@[m - 2] == s4.code.code@[m - 2]);
                assert(self.code.code@[m - 1] == s4.code.code@[m - 1]);
                assert(self.code.code@[n + 1] == s5.code.code@[n + 1]);
                assert(self.code.code@[n + 2] == s5.code.code@[n + 2]);
            }
        }
    }

    /// Parses an ingredient declaration: the marker, the ingredient's name,
    /// and an optional value after `=`; an ingredient without one starts as
    /// `nil`. Another ingredient or the end of the section must follow.
    fn var_declaration(&mut self)
        requires
            old(self).wf(),
        ensures
            evolves(*old(self), *final(self)),
            final(self).context.scope_ordering == old(self).context.scope_ordering,
            old(self).current.kind == TokenKind::Var ==> final(self).progress() < old(self).progress(),
    {
        self.consume(TokenKind::Var, "Expect 'set' ingredient identifier.");
        self.consume(TokenKind::VarIdent, "Expect ingredient identifier name.");
        self.define_variable(self.previous.lexeme);
        if self.match_token(TokenKind::Equal) {
            self.expression();
        } else {
            self.emit(Opcode::Nil.to_byte());
        }
        if !(self.is_end_ingredients() || self.check(TokenKind::Var)) {
            self.error_at_current("Expect 'set' ingredient identifier.");
        }
    }

    /// Parses one step. A step right after a `check` may be its `otherwise`
    /// branch; either way the pending jump is patched.
    fn statement(&mut self)
        requires
            old(self).wf(),
            old(self).context.scope_ordering@.len() >= 1,
        ensures
            evolves(*old(self), *final(self)),
            final(self).context.scope_ordering@.len() >= old(self).context.scope_ordering@.len(),
            !final(self).had_error ==> final(self).context.scope_ordering@.len()
                == old(self).context.scope_ordering@.len(),
        decreases old(self).progress(), 10nat,
    {
        if let Some(else_jump) = self.context.active_else {
            if self.match_token(TokenKind::Else) {
                self.else_statement();
                self.patch_jump(else_jump);
                self.context.active_else = None;
                return;
            } else {
                self.patch_jump(else_jump);
                self.context.active_else = None;
            }
        }
        if self.check(TokenKind::Step) {
            self.error("Empty instruction.");
        } else if self.match_token(TokenKind::Print) {
            self.print_statement();
        } else if self.match_token(TokenKind::If) {
            self.if_statement();
        } else if self.match_token(TokenKind::Return) {
            self.return_statement();
        } else if self.match_token(TokenKind::While) {
            self.while_statement();
        } else if self.match_token(TokenKind::Else) {
            self.error("'otherwise' clause without a matching 'check' clause.");
        } else {
            self.expression_statement();
        }
    }

    /// Parses the steps of a block: numbered from one up, each a statement,
    /// ending with `finish`. Closes the block's step counter.
    fn block(&mut self)
        requires
            old(self).wf(),
            old(self).context.scope_ordering@.len() >= 1,
        ensures
            evolves(*old(self), *final(self)),
            final(self).context.scope_ordering@.len() + 1 >= old(self).context.scope_ordering@.len(),
            !final(self).had_error ==> final(self).context.scope_ordering@.len() + 1
                == old(self).context.scope_ordering@.len(),
            old(self).current.kind != TokenKind::Step ==> final(self).had_error == old(self).had_error
                && final(self).code == old(self).code && final(self).diagnostics
                == old(self).diagnostics,
            old(self).current.kind == TokenKind::Step && old(self).current.lexeme@ != "1."@ ==> {
                &&& final(self).had_error
                &&& !old(self).had_error && scan_step(old(self).scanner.bytes(), old(self).scanner.position()).kind
                    != TokenKind::Error ==> final(self).diagnostics@[old(self).diagnostics@.len() as int]@
                    == error_text(old(self).current, "Expect instruction to start from '1.'"@)
            },
            old(self).current.kind == TokenKind::Step && !final(self).had_error
                ==> final(self).previous.kind == TokenKind::RightBrace,
            closes_at_once(*old(self)) && !old(self).had_error ==> !final(self).had_error,
        decreases old(self).progress(), 8nat,
    {
        let ghost ok = closes_at_once(*old(self)) && !old(self).had_error;
        let ghost b = self.scanner.bytes();
        let ghost t1 = scan_step(b, self.scanner.position());
        if !self.match_token(TokenKind::Step) {
            self.end_scope();
            return;
        }
        if !str_equal(self.previous.lexeme, "1.") {
            self.error("Expect instruction to start from '1.'");
            self.advance();
            return;
        }
        let mut end_found = false;
        let ghost mut first = true;
        assert(ok ==> !self.had_error && self.current.kind == TokenKind::RightBrace
            && self.scanner.position() == t1.next && self.scanner.bytes() == b
            && self.previous.lexeme@ == "1."@);
        loop
            invariant_except_break
                !end_found,
                ok ==> first,
                ok && first ==> !self.had_error && self.current.kind == TokenKind::RightBrace
                    && self.scanner.position() == t1.next && self.scanner.bytes() == b
                    && self.context.scope_ordering@.last() == 1 && self.context.active_else is None
                    && self.previous.lexeme@ == "1."@,
            invariant
                ok == (closes_at_once(*old(self)) && !old(self).had_error),
                ok ==> t1 == scan_step(old(self).scanner.bytes(), old(self).scanner.position()),
                ok ==> !self.had_error && (end_found || first),
                self.wf(),
                evolves(*old(self), *self),
                end_found ==> self.previous.kind == TokenKind::RightBrace,
                self.progress() < old(self).progress(),
                self.context.scope_ordering@.len() >= old(self).context.scope_ordering@.len(),
                !self.had_error ==> self.context.scope_ordering@.len() == old(self).context.scope_ordering@.len(),
                old(self).context.scope_ordering@.len() >= 1,
            ensures
                ok ==> end_found && !self.had_error,
            decreases self.progress(),
        {
            let k = self.context.scope_ordering.len() - 1;
            let current_step = self.context.scope_ordering[k];
            let mut text = String::new();
            push_decimal_usize(&mut text, current_step as usize);
            text.append(".");
            proof {
                reveal_strlit("1.");
                reveal_strlit(".");
                reveal_strlit("1");
                if ok && first {
                    assert(decimal_text(1) == "1"@);
                    assert(text@ =~= "1."@);
                }
            }
            if !str_equal(self.previous.lexeme, text.as_str()) {
                self.error("Expect instruction numbers to increase.");
                break;
            }
            match current_step.checked_add(1) {
                Some(next) => self.context.scope_ordering.set(k, next),
                None => {
                    self.error("Too many steps.");
                    break;
                },
            }
            if self.match_token(TokenKind::RightBrace) {
                if let Some(else_jump) = self.context.active_else {
                    self.patch_jump(else_jump);
                }
                end_found = true;
                break;
            }
            self.statement();
            if self.panic_mode {
                self.synchronise();
            }
            if !self.match_token(TokenKind::Step) {
                break;
            }
            proof {
                first = false;
            }
        }
        if !end_found {
            self.error_at_current("Instructions must terminate with 'end'.");
        }
        self.end_scope();
    }

    /// Parses a `taste` step: the expression, then its printing.
    fn print_statement(&mut self)
        requires
            old(self).wf(),
        ensures
            evolves(*old(self), *final(self)),
            final(self).context == old(self).context,
            ends_with(*final(self), seq![opcode_byte(Opcode::Print)]),
            old(self).had_error || final(self).current.kind == TokenKind::Step || final(self).had_error,
        decreases old(self).progress(), 7nat,
    {
        self.expression();
        self.check_end_step();
        self.emit(Opcode::Print.to_byte());
        proof {
            let d = self.code.code@;
            assert(d.subrange(d.len() - 1, d.len() as int) =~= seq![d.last()]);
        }
    }

    /// Parses a `check` step: the condition, then the block run when it
    /// holds; the jump past an `otherwise` branch is left pending.
    fn if_statement(&mut self)
        requires
            old(self).wf(),
            old(self).context.scope_ordering@.len() >= 1,
        ensures
            evolves(*old(self), *final(self)),
            final(self).context.scope_ordering@.len() >= old(self).context.scope_ordering@.len(),
            !final(self).had_error ==> final(self).context.scope_ordering@.len()
                == old(self).context.scope_ordering@.len(),
            ({
                let n = old(self).code.code@.len();
                let code = final(self).code.code@;
                &&& code.len() >= n + 8
                &&& final(self).context.active_else == Some((code.len() - 3) as usize)
                &&& code[code.len() - 1] == opcode_byte(Opcode::Pop)
                &&& code[code.len() - 4] == opcode_byte(Opcode::Jump)
            }),
        decreases old(self).progress(), 9nat,
    {
        self.expression();
        let then_jump = self.emit_jump(Opcode::JumpIfFalse.to_byte());
        self.emit(Opcode::Pop.to_byte());
        self.begin_scope();
        self.block();
        let else_jump = self.emit_jump(Opcode::Jump.to_byte());
        let ghost s1 = *self;
        self.patch_jump(then_jump);
        self.emit(Opcode::Pop.to_byte());
        self.context.active_else = Some(else_jump);
        proof {
            let code = self.code.code@;
            assert(code[code.len() - 4] == s1.code.code@[code.len() - 4]);
        }
    }

    /// Parses an `otherwise` branch: its block.
    fn else_statement(&mut self)
        requires
            old(self).wf(),
            old(self).context.scope_ordering@.len() >= 1,
        ensures
            evolves(*old(self), *final(self)),
            final(self).context.scope_ordering@.len() >= old(self).context.scope_ordering@.len(),
            !final(self).had_error ==> final(self).context.scope_ordering@.len()
                == old(self).context.scope_ordering@.len(),
        decreases old(self).progress(), 9nat,
    {
        self.begin_scope();
        self.block();
    }

    /// Parses a `serve` step: the value, then the return; top-level steps
    /// may not return.
    fn return_statement(&mut self)
        requires
            old(self).wf(),
        ensures
            evolves(*old(self), *final(self)),
            final(self).context == old(self).context,
            ends_with(*final(self), seq![opcode_byte(Opcode::Return)]),
            old(self).context.scope_ordering@.len() == 1 ==> final(self).had_error,
        decreases old(self).progress(), 7nat,
    {
        if self.context.scope_ordering.len() == 1 {
            self.error("Can't return from top-level code.");
        }
        self.expression();
        self.check_end_step();
        self.emit(Opcode::Return.to_byte());
        proof {
            let d = self.code.code@;
            assert(d.subrange(d.len() - 1, d.len() as int) =~= seq![d.last()]);
        }
    }

    /// Parses a `while` step: the condition, the block run while it holds,
    /// and the jump back to the condition.
    fn while_statement(&mut self)
        requires
            old(self).wf(),
            old(self).context.scope_ordering@.len() >= 1,
        ensures
            evolves(*old(self), *final(self)),
            final(self).context.scope_ordering@.len() >= old(self).context.scope_ordering@.len(),
            !final(self).had_error ==> final(self).context.scope_ordering@.len()
                == old(self).context.scope_ordering@.len(),
            ({
                let n = old(self).code.code@.len();
                let code = final(self).code.code@;
                &&& code.len() >= n + 8
                &&& code.last() == opcode_byte(Opcode::Pop)
            }),
        decreases old(self).progress(), 9nat,
    {
        let loop_start = self.code.code.len();
        self.expression();
        let exit_jump = self.emit_jump(Opcode::JumpIfFalse.to_byte());
        self.emit(Opcode::Pop.to_byte());
        self.begin_scope();
        self.block();
        self.emit_loop(loop_start);
        self.patch_jump(exit_jump);
        self.emit(Opcode::Pop.to_byte());
    }

    /// Parses an expression step, whose value is dropped.
    fn expression_statement(&mut self)
        requires
            old(self).wf(),
        ensures
            evolves(*old(self), *final(self)),
            final(self).context == old(self).context,
            ends_with(*final(self), seq![opcode_byte(Opcode::Pop)]),
        decreases old(self).progress(), 7nat,
    {
        self.expression();
        self.check_end_step();
        self.emit(Opcode::Pop.to_byte());
        proof {
            let d = self.code.code@;
            assert(d.subrange(d.len() - 1, d.len() as int) =~= seq![d.last()]);
        }
    }
}

/// `new` is `old` after a function named by `old`'s previous token, with as
/// many parameters as it declares, was compiled: a jump over its code, its code ending with a return of `nil`,
/// then the load of the function, added as the next constant, which starts
/// right after the jump.
pub open spec fn made_function(old: Compiler, new: Compiler) -> bool {
    let n = old.code.code@.len() as int;
    let k = old.code.constants_count;
    let code = new.code.code@;
    let m = code.len() - 2;
    &&& k < CONSTANTS_MAX_COUNT
    &&& new.code.constants_count >= k + 1
    &&& n + 5 <= m
    &&& code[n + 1] == le_bytes(m - n - 3)[0]
    &&& code[n + 2] == le_bytes(m - n - 3)[1]
    &&& code[m - 2] == opcode_byte(Opcode::Nil)
    &&& code[m - 1] == opcode_byte(Opcode::Return)
    &&& code[m] == opcode_byte(Opcode::Constant)
    &&& code[m + 1] == k as u8
    &&& new.code.constants@[k as int] matches Value::Function(f) && {
        &&& f.name@ == old.previous.lexeme@
        &&& f.arity == declared_parameters(old)
        &&& f.ip_start == n + 3
        &&& f.kind == FunctionKind::Function
    }
}

/// The level of `p` as a number, from the lowest.
fn precedence_level(p: Precedence) -> (r: u8)
    ensures
        r == rank(p),
{
    match p {
        Precedence::Lowest => 0,
        Precedence::Assignment => 1,
        Precedence::Or => 2,
        Precedence::And => 3,
        Precedence::Equality => 4,
        Precedence::Comparison => 5,
        Precedence::Term => 6,
        Precedence::Factor => 7,
        Precedence::Unary => 8,
        Precedence::Call => 9,
        Precedence::Primary => 10,
    }
}

/// `new` is `old` after reading the variable `name`, or assigning to it when
/// `can_assign` and `=` comes next: the operation with the slot and the
/// number of functions out where the name resolves, or the report that it is
/// defined nowhere.
pub open spec fn reads_variable(old: Compiler, new: Compiler, name: Seq<char>, can_assign: bool) -> bool {
    match local_resolution(old.context, name, 0) {
        Ok((i, d)) => if can_assign && old.current.kind == TokenKind::Equal {
            ends_with(new, seq![opcode_byte(Opcode::SetLocal), i, d])
        } else {
            emitted(old, new, seq![opcode_byte(Opcode::GetLocal), i, d])
        },
        Err(m) => reported(old, new, old.previous, m@),
    }
}

/// The arithmetic that an infix word of a recipe names: `plus` adds,
/// `subtract` subtracts, `combine` multiplies and `/` divides.
pub open spec fn names_arithmetic(kind: TokenKind, op: ArithmeticOperation) -> bool {
    ||| kind == TokenKind::Plus && op == ArithmeticOperation::Add
    ||| kind == TokenKind::Minus && op == ArithmeticOperation::Subtract
    ||| kind == TokenKind::Star && op == ArithmeticOperation::Multiply
    ||| kind == TokenKind::Slash && op == ArithmeticOperation::Divide
}

/// An arithmetic word compiles to the one instruction that, run by the
/// recipe machine on two numbers, asks for the arithmetic the word names,
/// with the left operand first: `3 subtract 1` asks for `3 - 1`.
pub proof fn law_arithmetic_words_compute_what_they_name(
    kind: TokenKind,
    op: ArithmeticOperation,
    s: StateView,
    code: Code,
    post: StateView,
    r: InterpretResult<Action>,
    x: u64,
    y: u64,
)
    requires
        names_arithmetic(kind, op),
        0 <= s.ip < code.code@.len(),
        code.code@[s.ip] == binary_bytes(kind)[0],
        can_pop(s),
        can_pop(popped(s)),
        top_value(popped(s)) == Value::Number(x),
        top_value(s) == Value::Number(y),
        step_outcome(s, code, post, r),
    ensures
        binary_bytes(kind).len() == 1,
        r == Ok::<Action, ChefError>(Action::Arithmetic(op, x, y)),
{
    let s1 = at_ip(s, s.ip + 1);
    assert(top_value(s1) == top_value(s));
    assert(popped(s1) == at_ip(popped(s), s.ip + 1));
    assert(top_value(popped(s1)) == top_value(popped(s)));
}

/// The comparison characters mean what they say: a lone `<` scans to the
/// operator that compiles to the instruction pushing whether the left number
/// is below the right one, and a lone `>` to the one pushing whether it is
/// above it.
pub proof fn law_comparison_characters_compare(
    c: u8,
    s: StateView,
    code: Code,
    post: StateView,
    r: InterpretResult<Action>,
    x: u64,
    y: u64,
)
    requires
        c == 60 || c == 62,
        compares(s, code, binary_bytes(operator_kind(c, false)->0)[0], x, y),
        step_outcome(s, code, post, r),
    ensures
        operator_kind(c, false) is Some,
        binary_bytes(operator_kind(c, false)->0).len() == 1,
        r == Ok::<Action, ChefError>(Action::Continue),
        top_value(post) == Value::Boolean(if c == 60 { number_lt(x, y) } else { number_lt(y, x) }),
{
    let op = binary_bytes(operator_kind(c, false)->0)[0];
    lemma_comparison_pushes(s, code, post, r, op, x, y);
}

/// The recipe words for arithmetic are read as the operators that name it:
/// `plus` adds, `subtract` subtracts, `combine` multiplies and `/` divides.
pub proof fn law_arithmetic_words_are_read_as_their_operators()
    ensures
        names_arithmetic(keyword_kind("plus"@), ArithmeticOperation::Add),
        names_arithmetic(keyword_kind("subtract"@), ArithmeticOperation::Subtract),
        names_arithmetic(keyword_kind("combine"@), ArithmeticOperation::Multiply),
        single_char_kind(47) matches Some(k) && names_arithmetic(k, ArithmeticOperation::Divide),
{
    reveal_strlit("compliments");
    reveal_strlit("and");
    reveal_strlit("plus");
    reveal_strlit("now");
    reveal_strlit("subtract");
    reveal_strlit("check");
    reveal_strlit("with");
    reveal_strlit("combine");
    assert("subtract"@[0] != "compliments"@[0]);
    assert("subtract"@[0] != "and"@[0]);
    assert("subtract"@[0] != "plus"@[0]);
    assert("subtract"@[0] != "now"@[0]);
    assert("combine"@[3] != "compliments"@[3]);
    assert("combine"@[0] != "and"@[0]);
    assert("combine"@[0] != "plus"@[0]);
    assert("combine"@[0] != "now"@[0]);
    assert("combine"@[0] != "subtract"@[0]);
    assert("combine"@[1] != "check"@[1]);
    assert("combine"@[0] != "with"@[0]);
}

} // verus!
