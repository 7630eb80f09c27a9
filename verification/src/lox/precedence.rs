use vstd::prelude::*;
use vstd::string::{StringExecFns, StringSliceAdditionalSpecFns};

use crate::common::{JUMP_MAX_COUNT, LOCALS_MAX_COUNT, UPVALUES_MAX_COUNT};
use crate::lexical::{inner_text, str_equal};
use crate::lox::chunk::{Operation, CONSTANTS_MAX};
use vstd::utf8::*;
use crate::lox::compiler::{
    balanced, context_depth, context_wf, emitted, ends_with, evolves, keeps_code, lemma_emitted_ends, frame, enclosing_frames, keeps_frame,
    literal_bits, outermost_kind, reported, chunk_of, lemma_emitted_chain,
    steps_forward, CompilerContext, Local, Parser, Upvalue,
};
use crate::lox::objects::FunctionObject;
use crate::lox::token::TokenKind;
use crate::lox::scanner::operator_kind;
use crate::lox::vm::{pop_two, transition, StepView};
use crate::value::{number_lt, ArithmeticOperation, Value};

verus! {

/// How tightly an operator binds, from loosest to tightest.
#[derive(Debug, PartialEq, Eq, PartialOrd, Ord, Clone, Copy, Structural)]
pub enum Precedence {
    Lowest,
    Assignment,  // =
    Or,  // or
    And,  // and
    Equality,  // == !=
    Comparison,  // < > <= >=
    Term,  // + -
    Factor,  // * /
    Unary,  // ! -
    Call,  // . ()
    Primary,
}

/// Which parsing routine handles a token in prefix or infix position.
#[derive(Debug, PartialEq, Eq, Clone, Copy, Structural)]
pub enum ParseFunctionKind {
    Nothing,
    Grouping,
    Unary,
    Binary,
    Number,
    Literal,
    String,
    Variable,
    And,
    Or,
    Call,
}

/// How the parser treats a token: in prefix position, in infix position, and
/// how tightly it binds as an infix operator.
pub struct ParseRule {
    pub prefix: ParseFunctionKind,
    pub infix: ParseFunctionKind,
    pub precedence: Precedence,
}

/// The rank of a precedence level, the loosest being zero.
pub open spec fn rank(p: Precedence) -> nat {
    match p {
        Precedence::Lowest => 0,
        Precedence::Assignment => 1,
        Precedence::Or => 2,
        Precedence::And => 3,
        Precedence::Equality => 4,
        Precedence::Comparison => 5,
        Precedence::Term => 6,
        Precedence::Factor => 7,
        Precedence::Unary => 8,
        Precedence::Call => 9,
        Precedence::Primary => 10,
    }
}

/// The routine that parses an expression starting with a token of kind `kind`.
pub open spec fn prefix_rule(kind: TokenKind) -> ParseFunctionKind {
    match kind {
        TokenKind::LeftParen => ParseFunctionKind::Grouping,
        TokenKind::Minus | TokenKind::Bang => ParseFunctionKind::Unary,
        TokenKind::Identifier => ParseFunctionKind::Variable,
        TokenKind::String => ParseFunctionKind::String,
        TokenKind::Number => ParseFunctionKind::Number,
        TokenKind::False | TokenKind::Nil | TokenKind::True => ParseFunctionKind::Literal,
        _ => ParseFunctionKind::Nothing,
    }
}

/// The routine that continues an expression with an operator token of kind `kind`.
pub open spec fn infix_rule(kind: TokenKind) -> ParseFunctionKind {
    match kind {
        TokenKind::LeftParen => ParseFunctionKind::Call,
        TokenKind::Minus | TokenKind::Plus | TokenKind::Slash | TokenKind::Star
        | TokenKind::BangEqual | TokenKind::EqualEqual | TokenKind::Greater
        | TokenKind::GreaterEqual | TokenKind::Less | TokenKind::LessEqual => ParseFunctionKind::Binary,
        TokenKind::And => ParseFunctionKind::And,
        TokenKind::Or => ParseFunctionKind::Or,
        _ => ParseFunctionKind::Nothing,
    }
}

/// How tightly a token of kind `kind` binds as an infix operator.
pub open spec fn infix_precedence(kind: TokenKind) -> Precedence {
    match kind {
        TokenKind::LeftParen => Precedence::Call,
        TokenKind::Minus | TokenKind::Plus => Precedence::Term,
        TokenKind::Slash | TokenKind::Star => Precedence::Factor,
        TokenKind::BangEqual | TokenKind::EqualEqual => Precedence::Equality,
        TokenKind::Greater | TokenKind::GreaterEqual | TokenKind::Less
        | TokenKind::LessEqual => Precedence::Comparison,
        TokenKind::And => Precedence::And,
        TokenKind::Or => Precedence::Or,
        _ => Precedence::Lowest,
    }
}

impl Precedence {
    /// The next tighter level; there is none above `Primary`.
    pub fn next(&self) -> (p: Precedence)
        requires
            *self != Precedence::Primary,
        ensures
            rank(p) == rank(*self) + 1,
    {
        match self {
            Precedence::Lowest => Precedence::Assignment,
            Precedence::Assignment => Precedence::Or,
            Precedence::Or => Precedence::And,
            Precedence::And => Precedence::Equality,
            Precedence::Equality => Precedence::Comparison,
            Precedence::Comparison => Precedence::Term,
            Precedence::Term => Precedence::Factor,
            Precedence::Factor => Precedence::Unary,
            Precedence::Unary => Precedence::Call,
            Precedence::Call => Precedence::Primary,
            Precedence::Primary => {
                proof {
                    assert(false);
                }
                Precedence::Primary
            },
        }
    }

    /// The parse rule for tokens of kind `token_kind`.
    pub fn get_rule(token_kind: TokenKind) -> (rule: ParseRule)
        ensures
            rule.prefix == prefix_rule(token_kind),
            rule.infix == infix_rule(token_kind),
            rule.precedence == infix_precedence(token_kind),
    {
        match token_kind {
            TokenKind::LeftParen => ParseRule {
                prefix: ParseFunctionKind::Grouping,
                infix: ParseFunctionKind::Call,
                precedence: Precedence::Call,
            },
            TokenKind::RightParen => ParseRule {
                prefix: ParseFunctionKind::Nothing,
                infix: ParseFunctionKind::Nothing,
                precedence: Precedence::Lowest,
            },
            TokenKind::LeftBrace => ParseRule {
                prefix: ParseFunctionKind::Nothing,
                infix: ParseFunctionKind::Nothing,
                precedence: Precedence::Lowest,
            },
            TokenKind::RightBrace => ParseRule {
                prefix: ParseFunctionKind::Nothing,
                infix: ParseFunctionKind::Nothing,
                precedence: Precedence::Lowest,
            },
            TokenKind::Comma => ParseRule {
                prefix: ParseFunctionKind::Nothing,
                infix: ParseFunctionKind::Nothing,
                precedence: Precedence::Lowest,
            },
            TokenKind::Dot => ParseRule {
                prefix: ParseFunctionKind::Nothing,
                infix: ParseFunctionKind::Nothing,
                precedence: Precedence::Lowest,
            },
            TokenKind::Minus => ParseRule {
                prefix: ParseFunctionKind::Unary,
                infix: ParseFunctionKind::Binary,
                precedence: Precedence::Term,
            },
            TokenKind::Plus => ParseRule {
                prefix: ParseFunctionKind::Nothing,
                infix: ParseFunctionKind::Binary,
                precedence: Precedence::Term,
            },
            TokenKind::Semicolon => ParseRule {
                prefix: ParseFunctionKind::Nothing,
                infix: ParseFunctionKind::Nothing,
                precedence: Precedence::Lowest,
            },
            TokenKind::Slash => ParseRule {
                prefix: ParseFunctionKind::Nothing,
                infix: ParseFunctionKind::Binary,
                precedence: Precedence::Factor,
            },
            TokenKind::Star => ParseRule {
                prefix: ParseFunctionKind::Nothing,
                infix: ParseFunctionKind::Binary,
                precedence: Precedence::Factor,
            },
            TokenKind::Bang => ParseRule {
                prefix: ParseFunctionKind::Unary,
                infix: ParseFunctionKind::Nothing,
                precedence: Precedence::Lowest,
            },
            TokenKind::BangEqual => ParseRule {
                prefix: ParseFunctionKind::Nothing,
                infix: ParseFunctionKind::Binary,
                precedence: Precedence::Equality,
            },
            TokenKind::Equal => ParseRule {
                prefix: ParseFunctionKind::Nothing,
                infix: ParseFunctionKind::Nothing,
                precedence: Precedence::Lowest,
            },
            TokenKind::EqualEqual => ParseRule {
                prefix: ParseFunctionKind::Nothing,
                infix: ParseFunctionKind::Binary,
                precedence: Precedence::Equality,
            },
            TokenKind::Greater => ParseRule {
                prefix: ParseFunctionKind::Nothing,
                infix: ParseFunctionKind::Binary,
                precedence: Precedence::Comparison,
            },
            TokenKind::GreaterEqual => ParseRule {
                prefix: ParseFunctionKind::Nothing,
                infix: ParseFunctionKind::Binary,
                precedence: Precedence::Comparison,
            },
            TokenKind::Less => ParseRule {
                prefix: ParseFunctionKind::Nothing,
                infix: ParseFunctionKind::Binary,
                precedence: Precedence::Comparison,
            },
            TokenKind::LessEqual => ParseRule {
                prefix: ParseFunctionKind::Nothing,
                infix: ParseFunctionKind::Binary,
                precedence: Precedence::Comparison,
            },
            TokenKind::Identifier => ParseRule {
                prefix: ParseFunctionKind::Variable,
                infix: ParseFunctionKind::Nothing,
                precedence: Precedence::Lowest,
            },
            TokenKind::String => ParseRule {
                prefix: ParseFunctionKind::String,
                infix: ParseFunctionKind::Nothing,
                precedence: Precedence::Lowest,
            },
            TokenKind::Number => ParseRule {
                prefix: ParseFunctionKind::Number,
                infix: ParseFunctionKind::Nothing,
                precedence: Precedence::Lowest,
            },
            TokenKind::And => ParseRule {
                prefix: ParseFunctionKind::Nothing,
                infix: ParseFunctionKind::And,
                precedence: Precedence::And,
            },
            TokenKind::Class => ParseRule {
                prefix: ParseFunctionKind::Nothing,
                infix: ParseFunctionKind::Nothing,
                precedence: Precedence::Lowest,
            },
            TokenKind::Else => ParseRule {
                prefix: ParseFunctionKind::Nothing,
                infix: ParseFunctionKind::Nothing,
                precedence: Precedence::Lowest,
            },
            TokenKind::False => ParseRule {
                prefix: ParseFunctionKind::Literal,
                infix: ParseFunctionKind::Nothing,
                precedence: Precedence::Lowest,
            },
            TokenKind::For => ParseRule {
                prefix: ParseFunctionKind::Nothing,
                infix: ParseFunctionKind::Nothing,
                precedence: Precedence::Lowest,
            },
            TokenKind::Fun => ParseRule {
                prefix: ParseFunctionKind::Nothing,
                infix: ParseFunctionKind::Nothing,
                precedence: Precedence::Lowest,
            },
            TokenKind::If => ParseRule {
                prefix: ParseFunctionKind::Nothing,
                infix: ParseFunctionKind::Nothing,
                precedence: Precedence::Lowest,
            },
            TokenKind::Nil => ParseRule {
                prefix: ParseFunctionKind::Literal,
                infix: ParseFunctionKind::Nothing,
                precedence: Precedence::Lowest,
            },
            TokenKind::Or => ParseRule {
                prefix: ParseFunctionKind::Nothing,
                infix: ParseFunctionKind::Or,
                precedence: Precedence::Or,
            },
            TokenKind::Print => ParseRule {
                prefix: ParseFunctionKind::Nothing,
                infix: ParseFunctionKind::Nothing,
                precedence: Precedence::Lowest,
            },
            TokenKind::Return => ParseRule {
                prefix: ParseFunctionKind::Nothing,
                infix: ParseFunctionKind::Nothing,
                precedence: Precedence::Lowest,
            },
            TokenKind::Super => ParseRule {
                prefix: ParseFunctionKind::Nothing,
                infix: ParseFunctionKind::Nothing,
                precedence: Precedence::Lowest,
            },
            TokenKind::This => ParseRule {
                prefix: ParseFunctionKind::Nothing,
                infix: ParseFunctionKind::Nothing,
                precedence: Precedence::Lowest,
            },
            TokenKind::True => ParseRule {
                prefix: ParseFunctionKind::Literal,
                infix: ParseFunctionKind::Nothing,
                precedence: Precedence::Lowest,
            },
            TokenKind::Var => ParseRule {
                prefix: ParseFunctionKind::Nothing,
                infix: ParseFunctionKind::Nothing,
                precedence: Precedence::Lowest,
            },
            TokenKind::While => ParseRule {
                prefix: ParseFunctionKind::Nothing,
                infix: ParseFunctionKind::Nothing,
                precedence: Precedence::Lowest,
            },
            TokenKind::Error => ParseRule {
                prefix: ParseFunctionKind::Nothing,
                infix: ParseFunctionKind::Nothing,
                precedence: Precedence::Lowest,
            },
            TokenKind::Eof => ParseRule {
                prefix: ParseFunctionKind::Nothing,
                infix: ParseFunctionKind::Nothing,
                precedence: Precedence::Lowest,
            },
        }
    }
}

/// Every token with an infix routine binds at least as tightly as `or`, and
/// every token without one binds at the lowest level, so a loop that parses
/// operators while they bind at least as tightly as some level above the lowest
/// only ever meets tokens it can parse.
pub proof fn law_infix_tokens_bind(kind: TokenKind)
    ensures
        (infix_rule(kind) == ParseFunctionKind::Nothing) <==> (infix_precedence(kind)
            == Precedence::Lowest),
        infix_rule(kind) != ParseFunctionKind::Nothing ==> rank(infix_precedence(kind)) >= 2,
{
}

/// Stepping to the next level never passes `Primary`, and the ranks of the
/// levels are distinct, so `next` walks the levels in order.
pub proof fn law_ranks_are_distinct(p: Precedence, q: Precedence)
    ensures
        rank(p) == rank(q) <==> p == q,
        rank(p) <= 10,
{
}

/// The highest slot below `i` whose local is named `name`, or -1.
pub open spec fn local_slot(locals: Seq<Local>, i: int, name: Seq<char>) -> int
    decreases i,
{
    if i <= 0 {
        -1
    } else if locals[i - 1].name@ == name {
        i - 1
    } else {
        local_slot(locals, i - 1, name)
    }
}

/// The lowest of the first `n` captured variables that is `index` with
/// `is_local`, or -1.
pub open spec fn upvalue_slot(upvalues: Seq<Upvalue>, n: int, index: u8, is_local: bool) -> int
    decreases n,
{
    if n <= 0 {
        -1
    } else if upvalue_slot(upvalues, n - 1, index, is_local) >= 0 {
        upvalue_slot(upvalues, n - 1, index, is_local)
    } else if upvalues[n - 1].index == index && upvalues[n - 1].is_local == is_local {
        n - 1
    } else {
        -1
    }
}

/// What looking up `name` among the locals of `c` gives: `None` when no slot
/// has that name, an error when the nearest one is not yet initialised, and
/// its slot otherwise.
pub open spec fn local_lookup(c: CompilerContext, name: Seq<char>) -> Result<Option<u8>, Seq<char>> {
    let k = local_slot(c.locals@, c.locals@.len() as int, name);
    if k < 0 {
        Ok(None)
    } else if c.locals@[k].depth is None {
        Err("Can't read local variable in its own initializer."@)
    } else {
        Ok(Some(k as u8))
    }
}

/// The error text of a result, as text.
pub open spec fn result_text(r: Result<Option<u8>, String>) -> Result<Option<u8>, Seq<char>> {
    match r {
        Ok(x) => Ok(x),
        Err(e) => Err(e@),
    }
}

/// Changing only captured variables keeps how deeply functions nest and the
/// kind of the outermost one.
proof fn lemma_only_upvalues_differ_shape(c: CompilerContext, d: CompilerContext)
    requires
        only_upvalues_differ(c, d),
    ensures
        context_depth(c) == context_depth(d),
        outermost_kind(c) == outermost_kind(d),
        frame(c) == frame(d),
        enclosing_frames(c) == enclosing_frames(d),
    decreases c,
{
    if let Some(p) = c.enclosing {
        let q = d.enclosing->0;
        lemma_only_upvalues_differ_shape(*p, *q);
    }
}

/// Some function enclosing `c` has a local named `name`.
pub open spec fn name_in_enclosing(c: CompilerContext, name: Seq<char>) -> bool
    decreases c,
{
    match c.enclosing {
        Some(parent) => local_slot(parent.locals@, parent.locals@.len() as int, name) >= 0
            || name_in_enclosing(*parent, name),
        None => false,
    }
}

/// `d` is `c` with at most the captured variables of `c` and of the
/// functions enclosing it changed, each still consistent.
pub open spec fn only_upvalues_differ(c: CompilerContext, d: CompilerContext) -> bool
    decreases c,
{
    &&& d.function == (FunctionObject { upvalue_count: d.function.upvalue_count, ..c.function })
    &&& d.scope_depth == c.scope_depth
    &&& d.locals == c.locals
    &&& d.locals_count == c.locals_count
    &&& d.upvalues@.len() == c.upvalues@.len()
    &&& d.function.upvalue_count >= c.function.upvalue_count
    &&& match (c.enclosing, d.enclosing) {
        (Some(p), Some(q)) => only_upvalues_differ(*p, *q),
        (None, None) => true,
        _ => false,
    }
}

/// A compiler state differs from itself at most in its captured variables.
proof fn lemma_only_upvalues_differ_refl(c: CompilerContext)
    ensures
        only_upvalues_differ(c, c),
    decreases c,
{
    if let Some(parent) = c.enclosing {
        lemma_only_upvalues_differ_refl(*parent);
    }
}

/// Looks up `token_name` among the locals of `compiler`, nearest first.
fn resolve_local(compiler: &CompilerContext, token_name: &str) -> (r: Result<Option<u8>, String>)
    requires
        compiler.locals@.len() <= LOCALS_MAX_COUNT,
    ensures
        result_text(r) == local_lookup(*compiler, token_name@),
{
    let mut i: usize = compiler.locals.len();
    while i > 0
        invariant
            i <= compiler.locals@.len() <= LOCALS_MAX_COUNT,
            local_slot(compiler.locals@, compiler.locals@.len() as int, token_name@) == local_slot(
                compiler.locals@,
                i as int,
                token_name@,
            ),
        decreases i,
    {
        let local = &compiler.locals[i - 1];
        if str_equal(token_name, local.name) {
            if local.depth.is_none() {
                return Err("Can't read local variable in its own initializer.".to_string());
            }
            return Ok(Some((i - 1) as u8));
        }
        i = i - 1;
    }
    Ok(None)
}

/// Gives the slot of the captured variable `index` (a local of the enclosing
/// function when `is_local`, one of its captured variables otherwise), adding
/// it when it is not captured yet; an error when the table is full.
fn add_upvalue(compiler: &mut CompilerContext, index: u8, is_local: bool) -> (r: Result<
    Option<u8>,
    String,
>)
    requires
        old(compiler).function.upvalue_count <= 255,
        old(compiler).upvalues@.len() == UPVALUES_MAX_COUNT,
    ensures
        ({
            let c = *old(compiler);
            let n = c.function.upvalue_count;
            let k = upvalue_slot(c.upvalues@, n as int, index, is_local);
            if k >= 0 {
                r == Ok::<Option<u8>, String>(Some(k as u8)) && *final(compiler) == c
            } else if n == 255 {
                &&& r matches Err(e) && e@ == "Too many closure variables in function."@
                &&& *final(compiler) == c
            } else {
                let d = *final(compiler);
                &&& r == Ok::<Option<u8>, String>(Some(n as u8))
                &&& d.upvalues@ == c.upvalues@.update(n as int, Upvalue { is_local, index })
                &&& d.function == (FunctionObject { upvalue_count: (n + 1) as usize, ..c.function })
                &&& d == (CompilerContext { upvalues: d.upvalues, function: d.function, ..c })
            }
        }),
        r matches Ok(Some(i)) ==> (i as int) < final(compiler).function.upvalue_count,
{
    proof {
        lemma_upvalue_slot_bound(
            old(compiler).upvalues@,
            old(compiler).function.upvalue_count as int,
            index,
            is_local,
        );
    }
    let upvalue_count = compiler.function.upvalue_count;
    let mut i: usize = 0;
    while i < upvalue_count
        invariant
            i <= upvalue_count <= 255,
            upvalue_count == compiler.function.upvalue_count,
            compiler.upvalues@.len() == UPVALUES_MAX_COUNT,
            *compiler == *old(compiler),
            upvalue_slot(compiler.upvalues@, i as int, index, is_local) == -1,
        decreases upvalue_count - i,
    {
        let upvalue = &compiler.upvalues[i];
        if upvalue.index == index && upvalue.is_local == is_local {
            proof {
                lemma_upvalue_slot_found(compiler.upvalues@, i as int, upvalue_count as int, index, is_local);
            }
            return Ok(Some(i as u8));
        }
        i = i + 1;
    }
    if upvalue_count == 255 {
        return Err("Too many closure variables in function.".to_string());
    }
    compiler.upvalues.set(upvalue_count, Upvalue { is_local, index });
    compiler.function.upvalue_count = upvalue_count + 1;
    Ok(Some(upvalue_count as u8))
}

/// The lowest matching slot among the first `n` is one of them.
proof fn lemma_upvalue_slot_bound(upvalues: Seq<Upvalue>, n: int, index: u8, is_local: bool)
    requires
        n >= 0,
    ensures
        -1 <= upvalue_slot(upvalues, n, index, is_local) < n,
    decreases n,
{
    if n > 0 {
        lemma_upvalue_slot_bound(upvalues, n - 1, index, is_local);
    }
}

/// When no earlier slot matches and slot `i` does, the lowest match among
/// the first `n` is `i`.
proof fn lemma_upvalue_slot_found(upvalues: Seq<Upvalue>, i: int, n: int, index: u8, is_local: bool)
    requires
        0 <= i < n,
        upvalue_slot(upvalues, i, index, is_local) == -1,
        upvalues[i].index == index && upvalues[i].is_local == is_local,
    ensures
        upvalue_slot(upvalues, n, index, is_local) == i,
    decreases n,
{
    if n > i + 1 {
        lemma_upvalue_slot_found(upvalues, i, n - 1, index, is_local);
    }
}

/// Resolves `token_name` as a variable captured from an enclosing function:
/// `None` when no enclosing function has a local of that name, otherwise the
/// slot of the captured variable in `compiler`, added along the way to every
/// function between; an error when a lookup or a table fails.
fn resolve_upvalue(compiler: &mut CompilerContext, token_name: &str) -> (r: Result<
    Option<u8>,
    String,
>)
    requires
        context_wf(*old(compiler)),
    ensures
        context_wf(*final(compiler)),
        only_upvalues_differ(*old(compiler), *final(compiler)),
        !name_in_enclosing(*old(compiler), token_name@) ==> r == Ok::<Option<u8>, String>(None)
            && *final(compiler) == *old(compiler),
        name_in_enclosing(*old(compiler), token_name@) ==> match r {
            Ok(Some(i)) => (i as int) < final(compiler).function.upvalue_count,
            Ok(None) => false,
            Err(e) => e@ == "Can't read local variable in its own initializer."@ || e@
                == "Too many closure variables in function."@,
        },
    decreases context_depth(*old(compiler)),
{
    let parent_opt = compiler.enclosing.take();
    match parent_opt {
        None => Ok(None),
        Some(parent) => {
            let ghost old_parent: CompilerContext = *parent;
            proof {
                assert(context_wf(*parent));
                lemma_only_upvalues_differ_refl(*parent);
            }
            let local = resolve_local(&parent, token_name);
            match local {
                Err(e) => {
                    compiler.enclosing = Some(parent);
                    return Err(e);
                },
                Ok(Some(local_index)) => {
                    compiler.enclosing = Some(parent);
                    return add_upvalue(compiler, local_index, true);
                },
                Ok(None) => {},
            }
            let mut enclosing: CompilerContext = *parent;
            let upvalue = resolve_upvalue(&mut enclosing, token_name);
            let parent = Box::new(enclosing);
            compiler.enclosing = Some(parent);
            match upvalue {
                Err(e) => Err(e),
                Ok(Some(upvalue_index)) => add_upvalue(compiler, upvalue_index, false),
                Ok(None) => {
                    proof {
                        assert(local_slot(old_parent.locals@, old_parent.locals@.len() as int, token_name@) < 0);
                        assert(!name_in_enclosing(old_parent, token_name@));
                        assert(!name_in_enclosing(*old(compiler), token_name@));
                    }
                    Ok(None)
                },
            }
        },
    }
}

impl<'source> Parser<'source> {
    /// Whether an operator of level `precedence` may be followed by an
    /// assignment: only at the lowest levels.
    fn can_assign(precedence: Precedence) -> (r: bool)
        ensures
            r == (rank(precedence) <= 1),
    {
        precedence_rank(precedence) <= 1
    }

    /// Parses an expression whose operators bind at least as tightly as
    /// `precedence`, appending its operations.
    pub fn parse_precedence(&mut self, precedence: Precedence)
        requires
            old(self).wf(),
            precedence != Precedence::Lowest,
        ensures
            keeps_code(*old(self), *final(self)),
            keeps_frame(*old(self), *final(self)),
            balanced(*old(self), *final(self)),
            evolves(*old(self), *final(self)),
            steps_forward(*old(self), *final(self)),
            prefix_rule(old(self).current.kind) == ParseFunctionKind::Nothing ==> final(self).had_error,
        decreases old(self).progress(), 1nat,
    {
        self.advance();
        let prefix_rule = Precedence::get_rule(self.previous.kind).prefix;
        if prefix_rule == ParseFunctionKind::Nothing {
            self.error("Expect expression.");
            return;
        }
        self.execute_rule(prefix_rule, precedence);
        let level = precedence_rank(precedence);
        proof {
            law_ranks_are_distinct(precedence, Precedence::Lowest);
        }
        loop
            invariant
                self.wf(),
                evolves(*old(self), *self),
                balanced(*old(self), *self),
                keeps_code(*old(self), *self),
                keeps_frame(*old(self), *self),
                steps_forward(*old(self), *self),
                level == rank(precedence),
                level >= 1,
                precedence != Precedence::Lowest,
            decreases self.progress(),
        {
            let current_rule = Precedence::get_rule(self.current.kind);
            if level > precedence_rank(current_rule.precedence) {
                break;
            }
            proof {
                law_infix_tokens_bind(self.current.kind);
                law_ranks_are_distinct(current_rule.precedence, Precedence::Lowest);
            }
            self.advance();
            let infix_rule = Precedence::get_rule(self.previous.kind).infix;
            self.execute_rule(infix_rule, precedence);
        }
        if Self::can_assign(precedence) && self.match_token(TokenKind::Equal) {
            self.error("Invalid assignment target.");
        }
    }

    /// Runs the parsing routine `kind` for the token just read, in an
    /// expression of level `precedence`.
    fn execute_rule(&mut self, kind: ParseFunctionKind, precedence: Precedence)
        requires
            old(self).wf(),
            kind == prefix_rule(old(self).previous.kind) || kind == infix_rule(
                old(self).previous.kind,
            ),
        ensures
            keeps_code(*old(self), *final(self)),
            keeps_frame(*old(self), *final(self)),
            balanced(*old(self), *final(self)),
            evolves(*old(self), *final(self)),
            kind == ParseFunctionKind::Nothing ==> *final(self) == *old(self),
            kind == ParseFunctionKind::Grouping ==> (!final(self).had_error
                ==> final(self).previous.kind == TokenKind::RightParen),
            kind == ParseFunctionKind::Unary ==> ends_with(
                *final(self),
                seq![unary_operation(old(self).previous.kind)],
            ),
            kind == ParseFunctionKind::Binary ==> ends_with(
                *final(self),
                binary_operations(old(self).previous.kind),
            ),
            kind == ParseFunctionKind::Number ==> appends_number(*old(self), *final(self)),
            kind == ParseFunctionKind::Literal ==> emitted(
                *old(self),
                *final(self),
                seq![literal_operation(old(self).previous.kind)],
            ),
            kind == ParseFunctionKind::String ==> appends_string(*old(self), *final(self)),
            kind == ParseFunctionKind::Variable ==> reads_variable(
                *old(self),
                *final(self),
                old(self).previous.lexeme@,
                rank(precedence) <= 1,
            ),
            kind == ParseFunctionKind::And ==> and_code(*old(self), *final(self)),
            kind == ParseFunctionKind::Or ==> or_code(*old(self), *final(self)),
            kind == ParseFunctionKind::Call ==> (old(self).current.kind == TokenKind::RightParen
                ==> ends_with(*final(self), seq![Operation::Call(0)])),
        decreases old(self).progress(), 5nat,
    {
        match kind {
            ParseFunctionKind::Nothing => {},
            ParseFunctionKind::Grouping => self.grouping(),
            ParseFunctionKind::Unary => self.unary(),
            ParseFunctionKind::Binary => self.binary(),
            ParseFunctionKind::Number => self.number(),
            ParseFunctionKind::Literal => self.literal(),
            ParseFunctionKind::String => self.string(),
            ParseFunctionKind::Variable => self.variable(Self::can_assign(precedence)),
            ParseFunctionKind::And => self.and(),
            ParseFunctionKind::Or => self.or(),
            ParseFunctionKind::Call => self.call(),
        }
    }

    /// Parses an expression, appending its operations.
    pub fn expression(&mut self)
        requires
            old(self).wf(),
        ensures
            keeps_code(*old(self), *final(self)),
            keeps_frame(*old(self), *final(self)),
            balanced(*old(self), *final(self)),
            evolves(*old(self), *final(self)),
            steps_forward(*old(self), *final(self)),
            prefix_rule(old(self).current.kind) == ParseFunctionKind::Nothing ==> final(self).had_error,
        decreases old(self).progress(), 2nat,
    {
        self.parse_precedence(Precedence::Assignment);
    }

    /// Parses the rest of a parenthesised expression.
    fn grouping(&mut self)
        requires
            old(self).wf(),
        ensures
            keeps_code(*old(self), *final(self)),
            keeps_frame(*old(self), *final(self)),
            balanced(*old(self), *final(self)),
            evolves(*old(self), *final(self)),
            steps_forward(*old(self), *final(self)),
            !final(self).had_error ==> final(self).previous.kind == TokenKind::RightParen,
        decreases old(self).progress(), 3nat,
    {
        self.expression();
        self.consume(TokenKind::RightParen, "Expect ')' after expression.");
    }

    /// Parses the operand of a prefix `-` or `!` and appends the operation.
    fn unary(&mut self)
        requires
            old(self).wf(),
            old(self).previous.kind == TokenKind::Minus || old(self).previous.kind
                == TokenKind::Bang,
        ensures
            keeps_code(*old(self), *final(self)),
            keeps_frame(*old(self), *final(self)),
            balanced(*old(self), *final(self)),
            evolves(*old(self), *final(self)),
            steps_forward(*old(self), *final(self)),
            ends_with(*final(self), seq![unary_operation(old(self).previous.kind)]),
        decreases old(self).progress(), 3nat,
    {
        let operator_kind = self.previous.kind;
        self.parse_precedence(Precedence::Unary);
        let ghost before = *self;
        match operator_kind {
            TokenKind::Minus => self.emit_operation(Operation::Negate),
            _ => self.emit_operation(Operation::Not),
        }
        proof {
            lemma_emitted_ends(before, *self, seq![unary_operation(operator_kind)]);
        }
    }

    /// Parses the right operand of an infix operator and appends the
    /// operations that combine the two operands.
    fn binary(&mut self)
        requires
            old(self).wf(),
            infix_rule(old(self).previous.kind) == ParseFunctionKind::Binary,
        ensures
            keeps_code(*old(self), *final(self)),
            keeps_frame(*old(self), *final(self)),
            balanced(*old(self), *final(self)),
            evolves(*old(self), *final(self)),
            steps_forward(*old(self), *final(self)),
            ends_with(*final(self), binary_operations(old(self).previous.kind)),
        decreases old(self).progress(), 3nat,
    {
        let operator_kind = self.previous.kind;
        let parse_rule = Precedence::get_rule(operator_kind);
        let next = parse_rule.precedence.next();
        proof {
            law_ranks_are_distinct(next, Precedence::Lowest);
        }
        self.parse_precedence(next);
        let ghost before = *self;
        match operator_kind {
            TokenKind::Plus => self.emit_operation(Operation::Add),
            TokenKind::Minus => self.emit_operation(Operation::Subtract),
            TokenKind::Star => self.emit_operation(Operation::Multiply),
            TokenKind::Slash => self.emit_operation(Operation::Divide),
            TokenKind::EqualEqual => self.emit_operation(Operation::Equal),
            TokenKind::Greater => self.emit_operation(Operation::Greater),
            TokenKind::Less => self.emit_operation(Operation::Less),
            TokenKind::BangEqual => {
                self.emit_operation(Operation::Equal);
                let ghost middle = *self;
                self.emit_operation(Operation::Not);
                proof {
                    lemma_emitted_chain(before, middle, *self, seq![Operation::Equal], seq![Operation::Not]);
                    assert(seq![Operation::Equal] + seq![Operation::Not] =~= seq![Operation::Equal, Operation::Not]);
                }
            },
            TokenKind::GreaterEqual => {
                self.emit_operation(Operation::Less);
                let ghost middle = *self;
                self.emit_operation(Operation::Not);
                proof {
                    lemma_emitted_chain(before, middle, *self, seq![Operation::Less], seq![Operation::Not]);
                    assert(seq![Operation::Less] + seq![Operation::Not] =~= seq![Operation::Less, Operation::Not]);
                }
            },
            _ => {
                self.emit_operation(Operation::Greater);
                let ghost middle = *self;
                self.emit_operation(Operation::Not);
                proof {
                    lemma_emitted_chain(before, middle, *self, seq![Operation::Greater], seq![Operation::Not]);
                    assert(seq![Operation::Greater] + seq![Operation::Not] =~= seq![Operation::Greater, Operation::Not]);
                }
            },
        }
        proof {
            lemma_emitted_ends(before, *self, binary_operations(operator_kind));
        }
    }

    /// The value the table of number literals gives for `text`.
    fn number_literal(&self, text: &str) -> (bits: Option<u64>)
        ensures
            bits == literal_bits(self.number_literals@, text@),
    {
        let ghost table = self.number_literals@;
        let mut i: usize = 0;
        proof {
            assert(table.subrange(0, table.len() as int) =~= table);
        }
        while i < self.number_literals.len()
            invariant
                table == self.number_literals@,
                i <= table.len(),
                literal_bits(table, text@) == literal_bits(
                    table.subrange(i as int, table.len() as int),
                    text@,
                ),
            decreases table.len() - i,
        {
            let ghost rest = table.subrange(i as int, table.len() as int);
            proof {
                assert(rest.drop_first() =~= table.subrange(i + 1, table.len() as int));
                assert(rest[0] == table[i as int]);
            }
            if str_equal(self.number_literals[i].0.as_str(), text) {
                return Some(self.number_literals[i].1);
            }
            i = i + 1;
        }
        None
    }

    /// Appends the constant number written by the previous token, whose value
    /// the table of number literals gives; reports an error when it has none.
    fn number(&mut self)
        requires
            old(self).wf(),
        ensures
            keeps_code(*old(self), *final(self)),
            keeps_frame(*old(self), *final(self)),
            balanced(*old(self), *final(self)),
            evolves(*old(self), *final(self)),
            appends_number(*old(self), *final(self)),
    {
        match self.number_literal(self.previous.lexeme) {
            Some(constant) => self.emit_constant(Value::Number(constant)),
            None => self.error("Could not cast lexeme to number"),
        }
    }

    /// Appends the operation that pushes the literal `nil`, `true` or `false`
    /// just read.
    fn literal(&mut self)
        requires
            old(self).wf(),
            prefix_rule(old(self).previous.kind) == ParseFunctionKind::Literal,
        ensures
            keeps_code(*old(self), *final(self)),
            keeps_frame(*old(self), *final(self)),
            balanced(*old(self), *final(self)),
            evolves(*old(self), *final(self)),
            emitted(*old(self), *final(self), seq![literal_operation(old(self).previous.kind)]),
    {
        match self.previous.kind {
            TokenKind::Nil => self.emit_operation(Operation::Nil),
            TokenKind::True => self.emit_operation(Operation::True),
            _ => self.emit_operation(Operation::False),
        }
    }

    /// Appends the constant string written by the previous token, without its
    /// quotes.
    fn string(&mut self)
        requires
            old(self).wf(),
            old(self).previous.kind == TokenKind::String,
        ensures
            keeps_code(*old(self), *final(self)),
            keeps_frame(*old(self), *final(self)),
            balanced(*old(self), *final(self)),
            evolves(*old(self), *final(self)),
            appends_string(*old(self), *final(self)),
    {
        let constant = inner_text(self.previous.lexeme);
        proof {
            broadcast use encode_utf8_decode_utf8;
            assert(constant@ == decode_utf8(constant.spec_bytes()));
        }
        self.emit_constant(Value::String(constant.to_string()));
    }

    /// Parses a use of, or an assignment to, the variable just read.
    pub(crate) fn variable(&mut self, can_assign: bool)
        requires
            old(self).wf(),
        ensures
            keeps_code(*old(self), *final(self)),
            keeps_frame(*old(self), *final(self)),
            balanced(*old(self), *final(self)),
            evolves(*old(self), *final(self)),
            reads_variable(*old(self), *final(self), old(self).previous.lexeme@, can_assign),
            !can_assign ==> final(self).previous == old(self).previous,
        decreases old(self).progress(), 4nat,
    {
        self.named_variable(self.previous.lexeme, can_assign);
    }

    /// Appends the operation that reads the variable `token_name` (a local,
    /// a captured variable or a global, looked up in that order), or parses
    /// an assignment to it when `can_assign` and an `=` follows.
    pub(crate) fn named_variable(&mut self, token_name: &str, can_assign: bool)
        requires
            old(self).wf(),
        ensures
            keeps_code(*old(self), *final(self)),
            keeps_frame(*old(self), *final(self)),
            balanced(*old(self), *final(self)),
            evolves(*old(self), *final(self)),
            reads_variable(*old(self), *final(self), token_name@, can_assign),
            !can_assign ==> final(self).previous == old(self).previous,
        decreases old(self).progress(), 3nat,
    {
        let (get_operation, set_operation) = match resolve_local(
            &self.compiler.context,
            token_name,
        ) {
            Ok(Some(constant_index)) => (
                Operation::GetLocal(constant_index),
                Operation::SetLocal(constant_index),
            ),
            Ok(None) => match {
                let ghost before = self.compiler.context;
                let upvalue = resolve_upvalue(&mut self.compiler.context, token_name);
                proof {
                    lemma_only_upvalues_differ_shape(before, self.compiler.context);
                }
                upvalue
            } {
                Ok(Some(upvalue_index)) => (
                    Operation::GetUpvalue(upvalue_index),
                    Operation::SetUpvalue(upvalue_index),
                ),
                Ok(None) => {
                    let index = match self.constant_identifier(token_name) {
                        Some(index) => index,
                        None => {
                            self.error("Reached constant limit.");
                            return;
                        },
                    };
                    (Operation::GetGlobal(index), Operation::SetGlobal(index))
                },
                Err(e) => {
                    self.error(e.as_str());
                    return;
                },
            },
            Err(e) => {
                self.error(e.as_str());
                return;
            },
        };
        if can_assign && self.match_token(TokenKind::Equal) {
            self.expression();
            let ghost before = *self;
            self.emit_operation(set_operation);
            proof {
                lemma_emitted_ends(before, *self, seq![set_operation]);
            }
        } else {
            let ghost before = *self;
            self.emit_operation(get_operation);
            proof {
                lemma_emitted_ends(before, *self, seq![get_operation]);
            }
        }
    }

    /// Parses the right operand of `and`, skipped when the left one is false.
    fn and(&mut self)
        requires
            old(self).wf(),
        ensures
            keeps_code(*old(self), *final(self)),
            keeps_frame(*old(self), *final(self)),
            balanced(*old(self), *final(self)),
            evolves(*old(self), *final(self)),
            steps_forward(*old(self), *final(self)),
            and_code(*old(self), *final(self)),
        decreases old(self).progress(), 3nat,
    {
        self.emit_operation(Operation::JumpIfFalse(JUMP_MAX_COUNT));
        let operations_before_and = self.current_chunk().code.len();
        self.emit_operation(Operation::Pop);
        self.parse_precedence(Precedence::And);
        self.patch_jump(operations_before_and);
    }

    /// Parses the right operand of `or`, skipped when the left one is true.
    fn or(&mut self)
        requires
            old(self).wf(),
        ensures
            keeps_code(*old(self), *final(self)),
            keeps_frame(*old(self), *final(self)),
            balanced(*old(self), *final(self)),
            evolves(*old(self), *final(self)),
            steps_forward(*old(self), *final(self)),
            or_code(*old(self), *final(self)),
        decreases old(self).progress(), 3nat,
    {
        self.emit_operation(Operation::JumpIfFalse(JUMP_MAX_COUNT));
        let operations_before_else_jump = self.current_chunk().code.len();
        self.emit_operation(Operation::Jump(JUMP_MAX_COUNT));
        let operations_before_end_jump = self.current_chunk().code.len();
        self.patch_jump(operations_before_else_jump);
        self.emit_operation(Operation::Pop);
        self.parse_precedence(Precedence::Or);
        self.patch_jump(operations_before_end_jump);
    }

    /// Parses the arguments of a call and appends the call.
    fn call(&mut self)
        requires
            old(self).wf(),
        ensures
            keeps_code(*old(self), *final(self)),
            keeps_frame(*old(self), *final(self)),
            balanced(*old(self), *final(self)),
            evolves(*old(self), *final(self)),
            steps_forward(*old(self), *final(self)),
            old(self).current.kind == TokenKind::RightParen ==> ends_with(
                *final(self),
                seq![Operation::Call(0)],
            ),
            !final(self).had_error ==> {
                &&& final(self).previous.kind == TokenKind::RightParen
                &&& chunk_of(*final(self)).code@.len() > 0
                &&& chunk_of(*final(self)).code@.last() matches Operation::Call(_)
            },
        decreases old(self).progress(), 4nat,
    {
        match self.argument_list() {
            Some(argument_count) => {
                let ghost before = *self;
                self.emit_operation(Operation::Call(argument_count));
                proof {
                    lemma_emitted_ends(before, *self, seq![Operation::Call(argument_count)]);
                }
            },
            None => self.error("Can't have more than 255 arguments."),
        }
    }

    /// Parses the arguments of a call up to the closing parenthesis and
    /// gives their number, or `None` when there are more than 255.
    fn argument_list(&mut self) -> (count: Option<u8>)
        requires
            old(self).wf(),
        ensures
            keeps_code(*old(self), *final(self)),
            keeps_frame(*old(self), *final(self)),
            balanced(*old(self), *final(self)),
            evolves(*old(self), *final(self)),
            steps_forward(*old(self), *final(self)),
            old(self).current.kind == TokenKind::RightParen ==> count == Some(0u8)
                && final(self).previous == old(self).current,
            count is Some && !final(self).had_error ==> final(self).previous.kind
                == TokenKind::RightParen,
        decreases old(self).progress(), 3nat,
    {
        let mut argument_count: u8 = 0;
        if !self.check_current_token(TokenKind::RightParen) {
            loop
                invariant
                    self.wf(),
                    evolves(*old(self), *self),
                    balanced(*old(self), *self),
                    keeps_code(*old(self), *self),
                    keeps_frame(*old(self), *self),
                    argument_count > 0 ==> steps_forward(*old(self), *self),
                    old(self).current.kind != TokenKind::RightParen,
                ensures
                    self.wf(),
                    evolves(*old(self), *self),
                    balanced(*old(self), *self),
                    keeps_code(*old(self), *self),
                    keeps_frame(*old(self), *self),
                    steps_forward(*old(self), *self),
                decreases self.progress(),
            {
                self.expression();
                argument_count = match argument_count.checked_add(1) {
                    Some(count) => count,
                    None => {
                        return None;
                    },
                };
                if !self.match_token(TokenKind::Comma) {
                    break;
                }
            }
        }
        self.consume(TokenKind::RightParen, "Expect ')' after arguments.");
        Some(argument_count)
    }
}

/// The operation a prefix operator token appends: `-` negates, `!` negates
/// the truth of its operand.
pub open spec fn unary_operation(kind: TokenKind) -> Operation {
    if kind == TokenKind::Minus {
        Operation::Negate
    } else {
        Operation::Not
    }
}

/// The operations an infix operator token appends after both operands:
/// `!=`, `>=` and `<=` are the negations of `==`, `<` and `>`.
pub open spec fn binary_operations(kind: TokenKind) -> Seq<Operation> {
    match kind {
        TokenKind::Plus => seq![Operation::Add],
        TokenKind::Minus => seq![Operation::Subtract],
        TokenKind::Star => seq![Operation::Multiply],
        TokenKind::Slash => seq![Operation::Divide],
        TokenKind::EqualEqual => seq![Operation::Equal],
        TokenKind::Greater => seq![Operation::Greater],
        TokenKind::Less => seq![Operation::Less],
        TokenKind::BangEqual => seq![Operation::Equal, Operation::Not],
        TokenKind::GreaterEqual => seq![Operation::Less, Operation::Not],
        _ => seq![Operation::Greater, Operation::Not],
    }
}

/// The operation a `nil`, `true` or `false` token appends.
pub open spec fn literal_operation(kind: TokenKind) -> Operation {
    match kind {
        TokenKind::Nil => Operation::Nil,
        TokenKind::True => Operation::True,
        _ => Operation::False,
    }
}

/// `new` is `old` after parsing the right operand of `and` at the end of the
/// chunk: a conditional jump, then a pop; the jump, once patched, skips to
/// the end of the operand.
pub open spec fn and_code(old: Parser, new: Parser) -> bool {
    let start = chunk_of(old).code@.len();
    let code = chunk_of(new).code@;
    &&& code.len() >= start + 2
    &&& code[start as int] matches Operation::JumpIfFalse(_)
    &&& code[start + 1int] == Operation::Pop
    &&& !new.had_error ==> code[start as int] == Operation::JumpIfFalse(
        (code.len() - start - 1) as u8,
    )
}

/// `new` is `old` after parsing the right operand of `or` at the end of the
/// chunk: a conditional jump over the next one, a jump, then a pop; the
/// second jump, once patched, skips to the end of the operand.
pub open spec fn or_code(old: Parser, new: Parser) -> bool {
    let start = chunk_of(old).code@.len();
    let code = chunk_of(new).code@;
    &&& code.len() >= start + 3
    &&& code[start as int] matches Operation::JumpIfFalse(_)
    &&& code[start + 1int] matches Operation::Jump(_)
    &&& code[start + 2int] == Operation::Pop
    &&& !new.had_error ==> {
        &&& code[start as int] == Operation::JumpIfFalse(1)
        &&& code[start + 1int] == Operation::Jump((code.len() - start - 2) as u8)
    }
}

/// `new` is `old` after the string literal just read was added as a
/// constant, without its quotes, and loaded; or after the report that the
/// constant table is full.
pub open spec fn appends_string(old: Parser, new: Parser) -> bool {
    let c = chunk_of(old);
    let d = chunk_of(new);
    let bytes = old.previous.lexeme.spec_bytes();
    if c.constants_count < CONSTANTS_MAX {
        &&& d.code@ == c.code@.push(Operation::Constant(c.constants_count as u8))
        &&& d.constants@[c.constants_count as int] matches Some(Value::String(t)) && t@
            == decode_utf8(bytes.subrange(1, bytes.len() - 1))
        &&& d.constants_count == c.constants_count + 1
    } else {
        reported(old, new, old.previous, "Too many constants in one chunk."@)
    }
}

/// `new` is `old` after the number literal just read was added as a
/// constant, with the value the table of literals gives it, and loaded; or
/// after the report that it has no value or that the constant table is full.
pub open spec fn appends_number(old: Parser, new: Parser) -> bool {
    let c = chunk_of(old);
    let d = chunk_of(new);
    match literal_bits(old.number_literals@, old.previous.lexeme@) {
        None => reported(old, new, old.previous, "Could not cast lexeme to number"@),
        Some(bits) => if c.constants_count < CONSTANTS_MAX {
            &&& d.code@ == c.code@.push(Operation::Constant(c.constants_count as u8))
            &&& d.constants@[c.constants_count as int] == Some(Value::Number(bits))
            &&& d.constants_count == c.constants_count + 1
        } else {
            reported(old, new, old.previous, "Too many constants in one chunk."@)
        },
    }
}

/// `new` is `old` after reading the variable `name`, or assigning to it when
/// `can_assign` and an `=` comes next: as a local when some slot has that
/// name, as a captured variable when an enclosing function has a local of
/// that name, and as a global otherwise, its name added as a constant.
pub open spec fn reads_variable(old: Parser, new: Parser, name: Seq<char>, can_assign: bool) -> bool {
    let look = local_lookup(old.compiler.context, name);
    let assign = can_assign && old.current.kind == TokenKind::Equal;
    let c = chunk_of(old);
    let code = chunk_of(new).code@;
    &&& look matches Ok(Some(i)) ==> if assign {
        ends_with(new, seq![Operation::SetLocal(i)])
    } else {
        emitted(old, new, seq![Operation::GetLocal(i)])
    }
    &&& look matches Err(m) ==> reported(old, new, old.previous, m)
    &&& look == Ok::<Option<u8>, Seq<char>>(None) && !name_in_enclosing(old.compiler.context, name)
        ==> if c.constants_count == CONSTANTS_MAX {
        reported(old, new, old.previous, "Reached constant limit."@)
    } else if assign {
        ends_with(new, seq![Operation::SetGlobal(c.constants_count as u8)])
    } else {
        &&& ends_with(new, seq![Operation::GetGlobal(c.constants_count as u8)])
        &&& chunk_of(new).constants@[c.constants_count as int] matches Some(Value::String(t))
            && t@ == name
        &&& new.had_error == old.had_error
        &&& new.scanner == old.scanner
        &&& new.current == old.current
    }
    &&& look == Ok::<Option<u8>, Seq<char>>(None) && name_in_enclosing(old.compiler.context, name)
        ==> new.had_error || (code.len() > 0 && if assign {
        code.last() matches Operation::SetUpvalue(_)
    } else {
        code.last() matches Operation::GetUpvalue(_)
    })
}

/// The level of `p` as a number, from the lowest.
fn precedence_rank(p: Precedence) -> (r: u8)
    ensures
        r == rank(p),
{
    match p {
        Precedence::Lowest => 0,
        Precedence::Assignment => 1,
        Precedence::Or => 2,
        Precedence::And => 3,
        Precedence::Equality => 4,
        Precedence::Comparison => 5,
        Precedence::Term => 6,
        Precedence::Factor => 7,
        Precedence::Unary => 8,
        Precedence::Call => 9,
        Precedence::Primary => 10,
    }
}

/// The arithmetic that an infix operator names: `+` adds, `-` subtracts,
/// `*` multiplies and `/` divides.
pub open spec fn names_arithmetic(kind: TokenKind, op: ArithmeticOperation) -> bool {
    ||| kind == TokenKind::Plus && op == ArithmeticOperation::Add
    ||| kind == TokenKind::Minus && op == ArithmeticOperation::Subtract
    ||| kind == TokenKind::Star && op == ArithmeticOperation::Multiply
    ||| kind == TokenKind::Slash && op == ArithmeticOperation::Divide
}

/// An arithmetic operator compiles to one operation that, run by the
/// machine on two numbers, asks for the arithmetic the operator names, with
/// the left operand first.
pub proof fn law_arithmetic_operators_compute_what_they_name(
    kind: TokenKind,
    op: ArithmeticOperation,
    stack: Seq<Value>,
    globals: Seq<(String, Value)>,
    line: usize,
    constants: Seq<Option<Value>>,
    stack2: Seq<Value>,
    globals2: Seq<(String, Value)>,
    step: StepView,
    x: u64,
    y: u64,
)
    requires
        names_arithmetic(kind, op),
        stack.len() >= 2,
        stack[stack.len() - 2] == Value::Number(x),
        stack[stack.len() - 1] == Value::Number(y),
        transition(stack, globals, binary_operations(kind)[0], line, constants, stack2, globals2, step),
    ensures
        binary_operations(kind).len() == 1,
        step == StepView::Arithmetic(op, x, y),
{
}

/// What a comparison written with `c` (`<` or `>`), followed by `=` when
/// `with_equal`, means on the numbers `x` and `y`: below, above, not above,
/// not below.
pub open spec fn comparison_meaning(c: u8, with_equal: bool, x: u64, y: u64) -> bool {
    if c == 60 {
        if with_equal {
            !number_lt(y, x)
        } else {
            number_lt(x, y)
        }
    } else if with_equal {
        !number_lt(x, y)
    } else {
        number_lt(y, x)
    }
}

/// The comparison characters mean what they say: `x < y`, `x > y`,
/// `x <= y` and `x >= y`, scanned, compiled and run on two numbers, leave
/// on the stack the truth value of that comparison in place of the numbers.
pub proof fn law_comparison_characters_compare(
    c: u8,
    with_equal: bool,
    x: u64,
    y: u64,
    stack: Seq<Value>,
    globals: Seq<(String, Value)>,
    line: usize,
    constants: Seq<Option<Value>>,
    stack1: Seq<Value>,
    globals1: Seq<(String, Value)>,
    step1: StepView,
    stack2: Seq<Value>,
    globals2: Seq<(String, Value)>,
    step2: StepView,
)
    requires
        c == 60 || c == 62,
        stack.len() >= 2,
        stack[stack.len() - 2] == Value::Number(x),
        stack[stack.len() - 1] == Value::Number(y),
        transition(
            stack,
            globals,
            binary_operations(operator_kind(c, with_equal)->0)[0],
            line,
            constants,
            stack1,
            globals1,
            step1,
        ),
        binary_operations(operator_kind(c, with_equal)->0).len() == 2 ==> transition(
            stack1,
            globals1,
            binary_operations(operator_kind(c, with_equal)->0)[1],
            line,
            constants,
            stack2,
            globals2,
            step2,
        ),
        binary_operations(operator_kind(c, with_equal)->0).len() == 1 ==> stack2 == stack1,
    ensures
        operator_kind(c, with_equal) is Some,
        stack2 == pop_two(stack).push(Value::Boolean(comparison_meaning(c, with_equal, x, y))),
{
    assert(stack.len() - 2 >= 0);
    assert(pop_two(stack).len() == stack.len() - 2);
    let b = pop_two(stack).push(Value::Boolean(number_lt(x, y)));
    assert(b.drop_last() =~= pop_two(stack));
    let g = pop_two(stack).push(Value::Boolean(number_lt(y, x)));
    assert(g.drop_last() =~= pop_two(stack));
}

} // verus!
