use std::rc::Rc;
use vstd::prelude::*;
use vstd::string::{StringExecFns, StringSliceAdditionalSpecFns};

use crate::common::{
    FUNCTION_ARITY_MAX_COUNT, JUMP_MAX_COUNT, LOCALS_MAX_COUNT, SUPER_STRING, UPVALUES_MAX_COUNT,
};
use crate::error::{decimal_text, push_decimal_usize};
use crate::lexical::{str_equal, terminated, LexemeSpec};
use crate::lox::chunk::{Chunk, Operation, CONSTANTS_MAX};
use crate::lox::objects::{FunctionKind, FunctionObject};
use crate::lox::precedence::{local_lookup, name_in_enclosing, prefix_rule, ParseFunctionKind};
use crate::lox::scanner::{
    law_end_of_file_repeats, lemma_scans_cleanly_step, lemma_string_token, scan_step,
    scans_cleanly, token_text_matches, Scanner,
};
use crate::lox::token::{Token, TokenKind};
use crate::value::Value;

verus! {

/// A local variable slot: its scope depth once initialised, its name, and
/// whether a closure captures it.
#[derive(Debug)]
pub struct Local<'source> {
    pub depth: Option<u8>,
    pub name: &'source str,
    pub is_captured: bool,
}

impl<'source> Local<'source> {
    /// An unused slot: no depth, an empty name, not captured.
    fn empty() -> (local: Self)
        ensures
            local.depth is None,
            local.name@ == ""@,
            !local.is_captured,
    {
        Local { depth: None, name: "", is_captured: false }
    }

    /// Returns the slot to its unused state.
    pub fn reset(&mut self)
        ensures
            final(self).depth is None,
            final(self).name@ == ""@,
            !final(self).is_captured,
    {
        self.depth = None;
        self.name = "";
        self.is_captured = false;
    }
}

/// A variable a closure captures: a local of the enclosing function or one of
/// its upvalues, at `index`.
#[derive(Debug)]
pub struct Upvalue {
    pub is_local: bool,
    pub index: u8,
}

/// The state of compiling one function: the function so far, its scopes,
/// locals and captured variables, and the function that encloses it.
pub struct CompilerContext<'source> {
    pub enclosing: Option<Box<CompilerContext<'source>>>,
    pub function: FunctionObject,
    pub scope_depth: u8,
    pub locals: Vec<Local<'source>>,
    pub locals_count: usize,
    pub upvalues: Vec<Upvalue>,
}

impl<'source> CompilerContext<'source> {
    /// The state at the start of compiling a function of kind `function_kind`
    /// named `name`: slot zero is reserved (named `this` in methods,
    /// initialisers and the script) and already initialised at depth zero.
    pub fn new(name: &str, function_kind: FunctionKind) -> (context: Self)
        ensures
            context.enclosing is None,
            context_wf(context),
            context.function.name@ == name@,
            context.function.kind == function_kind,
            context.function.arity == 0,
            context.function.upvalue_count == 0,
            context.function.chunk.wf(),
            context.function.chunk.code@.len() == 0,
            context.function.chunk.constants_count == 0,
            context.scope_depth == 0,
            context.locals_count == 1,
            context.locals@.len() == LOCALS_MAX_COUNT,
            context.upvalues@.len() == UPVALUES_MAX_COUNT,
            context.locals@[0].depth == Some(0u8),
            context.locals@[0].name@ == if function_kind != FunctionKind::Function {
                "this"@
            } else {
                ""@
            },
            forall|i: int| 1 <= i < LOCALS_MAX_COUNT ==> context.locals@[i].depth is None
                && context.locals@[i].name@ == ""@ && !context.locals@[i].is_captured,
            forall|i: int| 0 <= i < UPVALUES_MAX_COUNT ==> !context.upvalues@[i].is_local
                && context.upvalues@[i].index == 0,
    {
        let function = FunctionObject::new(name.to_owned(), function_kind);
        let mut upvalues: Vec<Upvalue> = Vec::new();
        let mut i: usize = 0;
        while i < UPVALUES_MAX_COUNT
            invariant
                i <= UPVALUES_MAX_COUNT,
                upvalues@.len() == i,
                forall|k: int| 0 <= k < i ==> !upvalues@[k].is_local && upvalues@[k].index == 0,
            decreases UPVALUES_MAX_COUNT - i,
        {
            upvalues.push(Upvalue { is_local: false, index: 0 });
            i = i + 1;
        }
        let mut locals: Vec<Local<'source>> = Vec::new();
        let mut first = Local::empty();
        first.depth = Some(0);
        if function_kind != FunctionKind::Function {
            first.name = "this";
        }
        locals.push(first);
        let mut j: usize = 1;
        while j < LOCALS_MAX_COUNT
            invariant
                1 <= j <= LOCALS_MAX_COUNT,
                locals@.len() == j,
                locals@[0].depth == Some(0u8),
                locals@[0].name@ == if function_kind != FunctionKind::Function {
                    "this"@
                } else {
                    ""@
                },
                forall|k: int| 1 <= k < j ==> locals@[k].depth is None && locals@[k].name@ == ""@
                    && !locals@[k].is_captured,
            decreases LOCALS_MAX_COUNT - j,
        {
            locals.push(Local::empty());
            j = j + 1;
        }
        Self {
            enclosing: None,
            function,
            scope_depth: 0,
            locals,
            locals_count: 1,
            upvalues,
        }
    }
}

/// The class being compiled, with the classes that enclose it.
pub struct ClassCompiler {
    pub enclosing: Option<Box<ClassCompiler>>,
    pub has_superclass: bool,
}

impl ClassCompiler {
    /// The state for a class nested in `enclosing`, with no superclass yet.
    pub fn new(enclosing: Option<Box<ClassCompiler>>) -> (c: Self)
        ensures
            c.enclosing == enclosing,
            !c.has_superclass,
    {
        Self { enclosing, has_superclass: false }
    }
}

/// How many functions enclose the one `c` compiles.
pub open spec fn context_depth(c: CompilerContext) -> nat
    decreases c,
{
    match c.enclosing {
        Some(parent) => 1 + context_depth(*parent),
        None => 0,
    }
}

/// The kind of the outermost function, the one that encloses all others.
pub open spec fn outermost_kind(c: CompilerContext) -> FunctionKind
    decreases c,
{
    match c.enclosing {
        Some(parent) => outermost_kind(*parent),
        None => c.function.kind,
    }
}

/// The compiler state: the function being compiled, innermost first.
pub struct Compiler<'source> {
    pub context: CompilerContext<'source>,
}

impl<'source> Compiler<'source> {
    /// The state at the start of compiling the top-level script.
    pub fn new() -> (c: Self)
        ensures
            c.context.enclosing is None,
            context_wf(c.context),
            c.context.function.kind == FunctionKind::Script,
            c.context.function.name@ == ""@,
            c.context.function.arity == 0,
            c.context.scope_depth == 0,
            c.context.locals_count == 1,
    {
        let compiler_context = CompilerContext::new("", FunctionKind::Script);
        Self { context: compiler_context }
    }
}

/// A token is well formed: the text of a string token starts and ends with a
/// double quote.
pub open spec fn token_wf(t: Token) -> bool {
    t.kind == TokenKind::String ==> {
        let x = t.lexeme.spec_bytes();
        &&& x.len() >= 2
        &&& x[0] == 34
        &&& x[x.len() - 1] == 34
    }
}

/// The compiler state of a function and of all functions enclosing it is
/// consistent: fixed-size local and upvalue tables with their counts inside
/// them, and a well-formed chunk.
pub open spec fn context_wf(c: CompilerContext) -> bool
    decreases c,
{
    &&& c.locals@.len() == LOCALS_MAX_COUNT
    &&& c.locals_count <= LOCALS_MAX_COUNT
    &&& c.upvalues@.len() == UPVALUES_MAX_COUNT
    &&& c.function.upvalue_count <= 255
    &&& c.function.chunk.wf()
    &&& match c.enclosing {
        Some(parent) => context_wf(*parent),
        None => true,
    }
}

/// The text of a compile error reported at `token`.
pub open spec fn error_text(token: Token, message: Seq<char>) -> Seq<char> {
    "[line "@ + decimal_text(token.line as nat) + "] Error"@ + (if token.kind == TokenKind::Eof {
        " at end"@
    } else if token.kind == TokenKind::Error {
        ""@
    } else {
        " at '"@ + token.lexeme@ + "'"@
    }) + ": "@ + message
}

/// The number that the table of number literals gives for `text`: the first
/// entry whose text it is.
pub open spec fn literal_bits(table: Seq<(String, u64)>, text: Seq<char>) -> Option<u64>
    decreases table.len(),
{
    if table.len() == 0 {
        None
    } else if table[0].0@ == text {
        Some(table[0].1)
    } else {
        literal_bits(table.drop_first(), text)
    }
}

/// The parser's state: the scanner, the last two tokens, whether an error has
/// been reported and whether it is recovering from one, the compilers, the
/// error reports so far, and the values of the number literals of the source.
pub struct Parser<'source> {
    pub scanner: Scanner<'source>,
    pub previous: Token<'source>,
    pub current: Token<'source>,
    pub had_error: bool,
    pub panic_mode: bool,
    pub compiler: Compiler<'source>,
    pub class_compiler: Option<Box<ClassCompiler>>,
    pub diagnostics: Vec<String>,
    pub number_literals: Vec<(String, u64)>,
}

/// Every report reads as a compile error at some token: its line, where on
/// the line, and a message.
#[verifier::opaque]
pub open spec fn reports_are_errors(reports: Seq<String>) -> bool {
    forall|i: int|
        #![trigger reports[i]]
        0 <= i < reports.len() ==> exists|t: Token, m: Seq<char>|
            #![trigger error_text(t, m)]
            reports[i]@ == error_text(t, m)
}

/// Adding a report that reads as a compile error keeps every report one.
proof fn lemma_report_added(before: Seq<String>, after: Seq<String>, t: Token, m: Seq<char>)
    requires
        reports_are_errors(before),
        after.len() == before.len() + 1,
        after.drop_last() == before,
        after.last()@ == error_text(t, m),
    ensures
        reports_are_errors(after),
{
    reveal(reports_are_errors);
    assert forall|i: int| #![trigger after[i]] 0 <= i < after.len() implies exists|t2: Token, m2: Seq<char>|
        #![trigger error_text(t2, m2)]
        after[i]@ == error_text(t2, m2) by {
        if i < before.len() {
            assert(after[i] == before[i]);
        } else {
            assert(after[i]@ == error_text(t, m));
        }
    }
}

/// `new` holds every report of `old`, in the same places, and maybe more.
pub open spec fn keeps_reports(old: Seq<String>, new: Seq<String>) -> bool {
    &&& old.len() <= new.len()
    &&& forall|i: int| 0 <= i < old.len() ==> new[i] == old[i]
}

/// `new` is the parser `old` after some parsing, leaving aside which class
/// is being compiled: still consistent, never further from the end of its
/// source and either nearer to it or still at a token of the same kind, still
/// in error once in error, its earlier reports kept, scanning the same source
/// with the same literals, inside an outermost function of the same kind.
pub open spec fn moves_on(old: Parser, new: Parser) -> bool {
    &&& new.wf()
    &&& new.progress() <= old.progress()
    &&& new.progress() < old.progress() || new.current.kind == old.current.kind
    &&& old.had_error ==> new.had_error
    &&& keeps_reports(old.diagnostics@, new.diagnostics@)
    &&& new.scanner.bytes() == old.scanner.bytes()
    &&& new.number_literals == old.number_literals
    &&& outermost_kind(new.compiler.context) == outermost_kind(old.compiler.context)
}

/// Unless an error has been reported, `new` compiles a function nested as
/// deeply as the one `old` compiles: every function begun was ended.
pub open spec fn balanced(old: Parser, new: Parser) -> bool {
    !new.had_error ==> context_depth(new.compiler.context) == context_depth(old.compiler.context)
}

/// `new` is the parser `old` after some parsing, in the same class.
pub open spec fn evolves(old: Parser, new: Parser) -> bool {
    &&& moves_on(old, new)
    &&& new.class_compiler == old.class_compiler
}

/// Unless `old` stood at the end of its source, `new` is nearer to it.
pub open spec fn steps_forward(old: Parser, new: Parser) -> bool {
    old.current.kind != TokenKind::Eof ==> new.progress() < old.progress()
}

impl<'source> Parser<'source> {
    /// The parser is consistent: its scanner can scan the rest of the source,
    /// an end-of-file token stays the end, tokens are well formed, recovering
    /// implies an error was reported, an error was reported exactly when there
    /// are reports, and the compiler state is consistent.
    pub open spec fn wf(&self) -> bool {
        let b = self.scanner.bytes();
        let p = self.scanner.position();
        &&& self.scanner.wf()
        &&& scans_cleanly(b, p)
        &&& self.current.kind == TokenKind::Eof ==> scan_step(b, p).kind == TokenKind::Eof
            && scan_step(b, p).next == p
        &&& self.current.kind != TokenKind::Error
        &&& token_wf(self.previous)
        &&& token_wf(self.current)
        &&& self.panic_mode ==> self.had_error
        &&& self.had_error <==> self.diagnostics@.len() > 0
        &&& reports_are_errors(self.diagnostics@)
        &&& context_wf(self.compiler.context)
    }

    /// The parser can read its next token: as `wf`, except that the current
    /// token may be the placeholder of a parser that has read nothing yet.
    pub open spec fn can_start(&self) -> bool {
        let b = self.scanner.bytes();
        let p = self.scanner.position();
        &&& self.scanner.wf()
        &&& scans_cleanly(b, p)
        &&& self.current.kind == TokenKind::Eof ==> scan_step(b, p).kind == TokenKind::Eof
            && scan_step(b, p).next == p
        &&& token_wf(self.current)
        &&& self.panic_mode ==> self.had_error
        &&& self.had_error <==> self.diagnostics@.len() > 0
        &&& reports_are_errors(self.diagnostics@)
        &&& context_wf(self.compiler.context)
    }

    /// How far the parser is from the end of its source: twice the bytes left
    /// to scan, plus one while the current token is not the end of file.
    pub open spec fn progress(&self) -> nat {
        (2 * (self.scanner.bytes().len() - self.scanner.position()) + if self.current.kind
            == TokenKind::Eof {
            0int
        } else {
            1int
        }) as nat
    }

    /// A parser at the start of `source`; the values of its number literals
    /// are given by `number_literals`. It is ready to compile when the source
    /// ends with a NUL byte and scans without meeting a character that starts
    /// no token.
    pub fn new(source: &'source str, number_literals: Vec<(String, u64)>) -> (parser: Self)
        ensures
            terminated(source.spec_bytes()) && scans_cleanly(source.spec_bytes(), 0)
                ==> parser.can_start(),
            context_depth(parser.compiler.context) == 0,
            outermost_kind(parser.compiler.context) == FunctionKind::Script,
            parser.scanner.bytes() == source.spec_bytes(),
            parser.scanner.position() == 0,
            parser.previous.kind == TokenKind::Error,
            parser.current.kind == TokenKind::Error,
            !parser.had_error,
            !parser.panic_mode,
            parser.diagnostics@.len() == 0,
            parser.number_literals == number_literals,
            parser.compiler.context.function.kind == FunctionKind::Script,
            parser.compiler.context.function.name@ == ""@,
            parser.compiler.context.function.arity == 0,
            parser.class_compiler is None,
    {
        let initial_token = Token::initial();
        proof {
            reveal(reports_are_errors);
        }
        Self {
            scanner: Scanner::new(source),
            previous: initial_token,
            current: initial_token,
            had_error: false,
            panic_mode: false,
            compiler: Compiler::new(),
            class_compiler: None,
            diagnostics: Vec::new(),
            number_literals,
        }
    }
}

/// `new` differs from `old` at most in whether an error was reported, whether
/// the parser is recovering, and its reports.
pub open spec fn only_errors_differ(old: Parser, new: Parser) -> bool {
    &&& new.scanner == old.scanner
    &&& new.previous == old.previous
    &&& new.current == old.current
    &&& new.compiler == old.compiler
    &&& new.class_compiler == old.class_compiler
    &&& new.number_literals == old.number_literals
}

/// `new` is `old` after reporting `message` at `token`: nothing changes while
/// recovering from an earlier error; otherwise the parser starts recovering,
/// is in error, and has one more report, the text of this one.
pub open spec fn reported(old: Parser, new: Parser, token: Token, message: Seq<char>) -> bool {
    if old.panic_mode {
        new == old
    } else {
        &&& only_errors_differ(old, new)
        &&& new.panic_mode
        &&& new.had_error
        &&& new.diagnostics@.len() == old.diagnostics@.len() + 1
        &&& new.diagnostics@.drop_last() == old.diagnostics@
        &&& new.diagnostics@.last()@ == error_text(token, message)
    }
}

/// The parser `p` with the state of the function being compiled replaced.
pub open spec fn with_context<'a>(p: Parser<'a>, context: CompilerContext<'a>) -> Parser<'a> {
    Parser { compiler: Compiler { context }, ..p }
}

/// The chunk of the function being compiled.
pub open spec fn chunk_of(p: Parser) -> Chunk {
    p.compiler.context.function.chunk
}

/// The parser `p` with the chunk of the function being compiled replaced.
pub open spec fn with_chunk<'a>(p: Parser<'a>, chunk: Chunk) -> Parser<'a> {
    Parser {
        compiler: Compiler {
            context: CompilerContext {
                function: FunctionObject { chunk, ..p.compiler.context.function },
                ..p.compiler.context
            },
        },
        ..p
    }
}

/// `new` is `old` with `ops` appended to the chunk being compiled, each from
/// the line of `old`'s previous token.
pub open spec fn emitted(old: Parser, new: Parser, ops: Seq<Operation>) -> bool {
    let c = chunk_of(old);
    let d = chunk_of(new);
    &&& d.code@ == c.code@ + ops
    &&& d.lines@ == c.lines@ + Seq::new(ops.len(), |i: int| old.previous.line)
    &&& d.constants == c.constants
    &&& d.constants_count == c.constants_count
    &&& new == with_chunk(old, d)
}

/// The code of the chunk being compiled in `new` begins with all the code of
/// the one in `old`.
pub open spec fn keeps_code(old: Parser, new: Parser) -> bool {
    let c = chunk_of(old).code@;
    let d = chunk_of(new).code@;
    &&& c.len() <= d.len()
    &&& forall|i: int| 0 <= i < c.len() ==> d[i] == c[i]
}

/// The code of the chunk being compiled in `p` ends with `ops`.
pub open spec fn ends_with(p: Parser, ops: Seq<Operation>) -> bool {
    let d = chunk_of(p).code@;
    &&& d.len() >= ops.len()
    &&& d.subrange(d.len() - ops.len(), d.len() as int) == ops
}

/// What the code compiled around a function sees of it: its chunk so far,
/// its scope depth, its kind, its locals, its name and its arity.
pub open spec fn frame(c: CompilerContext) -> (Chunk, u8, FunctionKind, Seq<Local>, usize, Seq<char>, u8) {
    (c.function.chunk, c.scope_depth, c.function.kind, c.locals@, c.locals_count, c.function.name@, c.function.arity)
}

/// The frames of the functions enclosing `c`, innermost first.
pub open spec fn enclosing_frames(c: CompilerContext) -> Seq<
    (Chunk, u8, FunctionKind, Seq<Local>, usize, Seq<char>, u8),
>
    decreases c,
{
    match c.enclosing {
        Some(parent) => seq![frame(*parent)] + enclosing_frames(*parent),
        None => Seq::empty(),
    }
}

/// `new` compiles, at the same scope depth, a function of the same kind,
/// name and arity as `old`, inside the same enclosing functions in the same
/// state.
pub open spec fn same_scope(old: Parser, new: Parser) -> bool {
    let c = old.compiler.context;
    let d = new.compiler.context;
    &&& d.scope_depth == c.scope_depth
    &&& d.function.kind == c.function.kind
    &&& d.function.name@ == c.function.name@
    &&& d.function.arity == c.function.arity
    &&& enclosing_frames(d) == enclosing_frames(c)
}

/// As `same_scope`, and with the same locals.
pub open spec fn keeps_frame(old: Parser, new: Parser) -> bool {
    &&& same_scope(old, new)
    &&& new.compiler.context.locals@ == old.compiler.context.locals@
    &&& new.compiler.context.locals_count == old.compiler.context.locals_count
}

/// Unless an error was reported, `new` went on compiling where `old` stood:
/// the same function, its earlier code kept, at the same scope depth.
pub open spec fn continues(old: Parser, new: Parser) -> bool {
    !new.had_error ==> keeps_code(old, new) && same_scope(old, new)
}

/// The frames enclosing a function just begun are the one it was begun in,
/// then those enclosing that one.
pub proof fn lemma_frames_split(
    c: CompilerContext,
    parent: CompilerContext,
    d: CompilerContext,
)
    requires
        c.enclosing == Some(Box::new(parent)),
        enclosing_frames(c) == seq![frame(d)] + enclosing_frames(d),
    ensures
        frame(parent) == frame(d),
        enclosing_frames(parent) == enclosing_frames(d),
{
    let s = enclosing_frames(c);
    assert(s[0] == frame(parent));
    assert(s[0] == frame(d));
    assert(s.drop_first() =~= enclosing_frames(parent));
    assert(s.drop_first() =~= enclosing_frames(d));
}

/// A token of kind `kind` begins a statement.
pub open spec fn starts_statement(kind: TokenKind) -> bool {
    match kind {
        TokenKind::Class | TokenKind::Fun | TokenKind::Var | TokenKind::For | TokenKind::If
        | TokenKind::While | TokenKind::Print | TokenKind::Return => true,
        _ => false,
    }
}

/// The code of `new` is that of `old` followed by an if statement: after
/// the condition, a conditional jump to the else branch and a pop; after the
/// then branch, a jump to the end and a pop.
pub open spec fn if_code(old: Parser, new: Parser) -> bool {
    let start = chunk_of(old).code@.len();
    let code = chunk_of(new).code@;
    exists|i: int, j: int|
        #![trigger code[i], code[j]]
        start <= i && i + 2 <= j && j + 2 <= code.len() && code[i] == Operation::JumpIfFalse(
            (j - i) as u8,
        ) && code[i + 1] == Operation::Pop && code[j] == Operation::Jump(
            (code.len() - j - 1) as u8,
        ) && code[j + 1] == Operation::Pop
}

/// The code of `new` is that of `old` followed by a while loop: after the
/// condition, a conditional jump to the final pop and a pop; after the body,
/// a jump back to the condition and the final pop.
pub open spec fn while_code(old: Parser, new: Parser) -> bool {
    let start = chunk_of(old).code@.len();
    let code = chunk_of(new).code@;
    let n = code.len();
    &&& n >= start + 4
    &&& code[n - 2] == Operation::Loop((n - 2 - start) as u8)
    &&& code[n - 1] == Operation::Pop
    &&& exists|i: int|
        #![trigger code[i]]
        start <= i && i + 4 <= n && code[i] == Operation::JumpIfFalse((n - 2 - i) as u8)
            && code[i + 1] == Operation::Pop
}

/// `new` holds, in the slot after the locals of `old`, a local named by
/// `old`'s current token and initialised at the current depth; the locals
/// below it are kept.
pub open spec fn declared_local(old: Parser, new: Parser) -> bool {
    let c = old.compiler.context;
    let d = new.compiler.context;
    &&& c.locals_count < LOCALS_MAX_COUNT
    &&& d.locals_count == c.locals_count + 1
    &&& d.locals@[c.locals_count as int].name@ == old.current.lexeme@
    &&& d.locals@[c.locals_count as int].depth == Some(c.scope_depth)
    &&& forall|i: int| 0 <= i < c.locals_count ==> d.locals@[i] == c.locals@[i]
}

/// `new` is `old` after a function of kind `kind`, named by `old`'s previous
/// token, was compiled: its object, whose code ends with its return, added
/// as the next constant of the chunk, and the code followed by the operation
/// that makes a closure of it and a pair of operations for each variable it
/// captures.
pub open spec fn made_closure(old: Parser, new: Parser, kind: FunctionKind) -> bool {
    let c = chunk_of(old);
    let d = chunk_of(new);
    let n = c.code@.len();
    let k = c.constants_count as int;
    &&& c.constants_count < CONSTANTS_MAX
    &&& d.constants_count == c.constants_count + 1
    &&& d.constants@ == c.constants@.update(k, d.constants@[k])
    &&& keeps_code(old, new)
    &&& d.code@.len() > n
    &&& d.code@[n as int] == Operation::Closure(c.constants_count as u8)
    &&& d.constants@[k] matches Some(Value::FunctionObject(f)) && {
        &&& f.kind == kind
        &&& f.name@ == old.previous.lexeme@
        &&& f.arity == declared_parameters(old)
        &&& f.chunk.code@.len() >= 2
        &&& f.chunk.code@.last() == Operation::Return
        &&& f.chunk.code@[f.chunk.code@.len() - 2] == if kind == FunctionKind::Initializer {
            Operation::GetLocal(0)
        } else {
            Operation::Nil
        }
        &&& d.code@.len() == n + 1 + 2 * f.upvalue_count
        &&& forall|m: int|
            #![trigger d.code@[n + 1 + 2 * m]]
            0 <= m < f.upvalue_count ==> (d.code@[n + 1 + 2 * m] is ClosureIsLocalByte
                && d.code@[n + 2 + 2 * m] is ClosureIndexByte)
    }
}

/// The code that `new` added after that of `old` holds a jump back to a
/// place inside it: the loop of a for statement.
pub open spec fn loops_back(old: Parser, new: Parser) -> bool {
    let start = chunk_of(old).code@.len();
    let code = chunk_of(new).code@;
    exists|k: int|
        #![trigger code[k]]
        start <= k < code.len() && (code[k] matches Operation::Loop(back) && start <= k - back)
}

/// Unless the source holds an error token next, `new` has read the token
/// that follows `old`'s position and stands after it.
pub open spec fn reads_next(old: Parser, new: Parser) -> bool {
    let b = old.scanner.bytes();
    let st = scan_step(b, old.scanner.position());
    &&& st.kind != TokenKind::Error ==> {
        &&& new.current.kind == st.kind
        &&& token_text_matches(b, new.current, st.lexeme)
        &&& new.scanner.position() == st.next
        &&& new.diagnostics == old.diagnostics
        &&& new.had_error == old.had_error
        &&& new.panic_mode == old.panic_mode
    }
    &&& st.kind == TokenKind::Error ==> new.had_error
}

/// How many parameters a list whose first name is scanned from position `p`
/// of `b` names: that name, then one more after each `,` that follows a
/// name, up to `fuel` more.
pub open spec fn parameter_count(b: Seq<u8>, p: int, fuel: nat) -> nat
    decreases fuel,
{
    let name = scan_step(b, p);
    let separator = scan_step(b, name.next);
    if fuel > 0 && separator.kind == TokenKind::Comma {
        1 + parameter_count(b, separator.next, (fuel - 1) as nat)
    } else {
        1
    }
}

/// How many parameters the function whose `(` is the current token of `p`
/// declares: none when `)` comes next, otherwise those of the list.
pub open spec fn declared_parameters(p: Parser) -> nat {
    let b = p.scanner.bytes();
    if p.current.kind == TokenKind::LeftParen && scan_step(b, p.scanner.position()).kind
        != TokenKind::RightParen {
        parameter_count(b, p.scanner.position(), 254)
    } else {
        0
    }
}

/// Where the `( )` of a function whose `(` is the current token of `p` ends:
/// just after the `)`.
pub open spec fn parameters_close(p: Parser) -> int {
    scan_step(p.scanner.bytes(), p.scanner.position()).next
}

/// The parser stands at `( ) { }`: a function with no parameters and an
/// empty body, followed by a token that is no error.
pub open spec fn simple_function_follows(p: Parser) -> bool {
    let b = p.scanner.bytes();
    let t1 = scan_step(b, p.scanner.position());
    let e = parameters_close(p);
    let t2 = scan_step(b, e);
    let t3 = scan_step(b, t2.next);
    &&& p.current.kind == TokenKind::LeftParen
    &&& t1.kind == TokenKind::RightParen
    &&& t2.kind == TokenKind::LeftBrace
    &&& t3.kind == TokenKind::RightBrace
    &&& scan_step(b, t3.next).kind != TokenKind::Error
}

/// A token of kind `kind` can start no declaration or statement: it is no
/// keyword that begins one, no `{`, nothing an expression starts with, and
/// not the end of the source.
pub open spec fn starts_nothing(kind: TokenKind) -> bool {
    &&& kind != TokenKind::Class && kind != TokenKind::Fun && kind != TokenKind::Var
    &&& kind != TokenKind::Print && kind != TokenKind::For && kind != TokenKind::If
    &&& kind != TokenKind::Return && kind != TokenKind::While && kind != TokenKind::LeftBrace
    &&& kind != TokenKind::Eof
    &&& prefix_rule(kind) == ParseFunctionKind::Nothing
}

/// The parser stands, at the top level, at the name of a class with no
/// superclass and an empty body, `NAME { }`, followed by a token that is no
/// error; the name reads as a global, and the constant table has room for
/// it twice.
pub open spec fn plain_class_follows(p: Parser) -> bool {
    let b = p.scanner.bytes();
    let t1 = scan_step(b, p.scanner.position());
    let t2 = scan_step(b, t1.next);
    &&& p.current.kind == TokenKind::Identifier
    &&& t1.kind == TokenKind::LeftBrace
    &&& t2.kind == TokenKind::RightBrace
    &&& scan_step(b, t2.next).kind != TokenKind::Error
    &&& p.compiler.context.scope_depth == 0
    &&& chunk_of(p).constants_count + 2 <= CONSTANTS_MAX
    &&& local_lookup(p.compiler.context, p.current.lexeme@) == Ok::<Option<u8>, Seq<char>>(None)
    &&& !name_in_enclosing(p.compiler.context, p.current.lexeme@)
}

/// The parser stands at the name of a class followed by `<`: the class names
/// a superclass.
pub open spec fn names_superclass(p: Parser) -> bool {
    &&& p.current.kind == TokenKind::Identifier
    &&& scan_step(p.scanner.bytes(), p.scanner.position()).kind == TokenKind::Less
}

/// The parser stands at the name of a class that names itself as its
/// superclass: the name, then `<`, then the same name again.
pub open spec fn inherits_from_itself(p: Parser) -> bool {
    let b = p.scanner.bytes();
    let t1 = scan_step(b, p.scanner.position());
    let t2 = scan_step(b, t1.next);
    &&& p.current.kind == TokenKind::Identifier
    &&& t1.kind == TokenKind::Less
    &&& t2.kind == TokenKind::Identifier
    &&& t2.lexeme matches LexemeSpec::Span(a, e) && b.subrange(a, e)
        == p.current.lexeme.spec_bytes()
}

/// Appending operations keeps the code before them and ends with them.
pub proof fn lemma_emitted_ends(a: Parser, b: Parser, ops: Seq<Operation>)
    requires
        emitted(a, b, ops),
    ensures
        keeps_code(a, b),
        ends_with(b, ops),
{
    let d = chunk_of(b).code@;
    assert(d.subrange(d.len() - ops.len(), d.len() as int) =~= ops);
}

/// The operation that drops a local leaving scope: closes it over when a
/// closure captured it, pops it otherwise.
pub open spec fn leaving_operation(local: Local) -> Operation {
    if local.is_captured {
        Operation::CloseUpvalue
    } else {
        Operation::Pop
    }
}

/// The operations that drop the locals from slot `from - 1` down to slot `to`.
pub open spec fn leaving_operations(locals: Seq<Local>, from: int, to: int) -> Seq<Operation> {
    Seq::new((from - to) as nat, |k: int| leaving_operation(locals[from - 1 - k]))
}

/// How many of the first `count` locals stay when leaving a scope for depth
/// `depth`: locals are dropped from the top until one declared at `depth` or
/// below is met.
pub open spec fn kept_count(locals: Seq<Local>, count: int, depth: u8) -> int
    decreases count,
{
    if count <= 0 {
        0
    } else if locals[count - 1].depth matches Some(d) && d <= depth {
        count
    } else {
        kept_count(locals, count - 1, depth)
    }
}

/// A slot that holds no local.
pub open spec fn is_unused(local: Local) -> bool {
    local.depth is None && local.name@ == ""@ && !local.is_captured
}

/// Appending operations in two steps appends them all.
pub proof fn lemma_emitted_chain(a: Parser, b: Parser, c: Parser, x: Seq<Operation>, y: Seq<Operation>)
    requires
        emitted(a, b, x),
        emitted(b, c, y),
        b.previous == a.previous,
    ensures
        emitted(a, c, x + y),
{
    let ca = chunk_of(a);
    let cc = chunk_of(c);
    assert(cc.code@ =~= ca.code@ + (x + y));
    assert(cc.lines@ =~= ca.lines@ + Seq::new((x + y).len(), |i: int| a.previous.line));
}

/// `d` is `c` with a local named `name` declared, not yet initialised, in the
/// next free slot; `c` unchanged when every slot is taken.
pub open spec fn local_added<'a>(c: CompilerContext<'a>, d: CompilerContext<'a>, name: &str) -> bool {
    if c.locals_count == LOCALS_MAX_COUNT {
        d == c
    } else {
        &&& d.locals@ == c.locals@.update(
            c.locals_count as int,
            Local { name: d.locals@[c.locals_count as int].name, ..c.locals@[c.locals_count as int] },
        )
        &&& d.locals@[c.locals_count as int].name@ == name@
        &&& d.locals_count == c.locals_count + 1
        &&& d == (CompilerContext { locals: d.locals, locals_count: d.locals_count, ..c })
    }
}

/// `new` is `old` with the same tokens, scanner, class and literals.
pub open spec fn same_tokens(old: Parser, new: Parser) -> bool {
    &&& new.scanner == old.scanner
    &&& new.previous == old.previous
    &&& new.current == old.current
    &&& new.class_compiler == old.class_compiler
    &&& new.number_literals == old.number_literals
}

/// Some local among the slots below `i` and above the first one declared in
/// a scope shallower than `depth` is named `name`.
pub open spec fn clash_in_scope(locals: Seq<Local>, i: int, depth: u8, name: Seq<char>) -> bool
    decreases i,
{
    if i <= 0 {
        false
    } else if locals[i - 1].depth matches Some(d) && d < depth {
        false
    } else {
        locals[i - 1].name@ == name || clash_in_scope(locals, i - 1, depth, name)
    }
}

/// The jump `op` with its offset set to `offset`, or `None` when `op` is no
/// forward jump.
pub open spec fn patched(op: Operation, offset: u8) -> Option<Operation> {
    match op {
        Operation::JumpIfFalse(_) => Some(Operation::JumpIfFalse(offset)),
        Operation::Jump(_) => Some(Operation::Jump(offset)),
        _ => None,
    }
}

/// `c` is the state at the start of compiling a function of kind `kind`
/// named `name`, apart from what encloses it.
pub open spec fn fresh_context(c: CompilerContext, name: Seq<char>, kind: FunctionKind) -> bool {
    &&& c.function.name@ == name
    &&& c.function.kind == kind
    &&& c.function.arity == 0
    &&& c.function.upvalue_count == 0
    &&& c.function.chunk.wf()
    &&& c.function.chunk.code@.len() == 0
    &&& c.function.chunk.constants_count == 0
    &&& c.scope_depth == 0
    &&& c.locals_count == 1
    &&& c.locals@.len() == LOCALS_MAX_COUNT
    &&& c.upvalues@.len() == UPVALUES_MAX_COUNT
    &&& c.locals@[0].depth == Some(0u8)
    &&& c.locals@[0].name@ == if kind != FunctionKind::Function {
        "this"@
    } else {
        ""@
    }
    &&& forall|i: int| 1 <= i < LOCALS_MAX_COUNT ==> is_unused(#[trigger] c.locals@[i])
    &&& forall|i: int| 0 <= i < UPVALUES_MAX_COUNT ==> !(#[trigger] c.upvalues@[i]).is_local
        && c.upvalues@[i].index == 0
}

impl<'source> Parser<'source> {
    /// Whether the current token is of kind `token_kind`.
    pub(crate) fn check_current_token(&self, token_kind: TokenKind) -> (r: bool)
        ensures
            r == (self.current.kind == token_kind),
    {
        self.current.kind == token_kind
    }

    /// The chunk of the function being compiled.
    pub(crate) fn current_chunk(&self) -> (chunk: &Chunk)
        ensures
            *chunk == self.compiler.context.function.chunk,
    {
        &self.compiler.context.function.chunk
    }

    /// How deeply the current scope of the function being compiled nests.
    fn current_scope_depth(&self) -> (depth: u8)
        ensures
            depth == self.compiler.context.scope_depth,
    {
        self.compiler.context.scope_depth
    }

    /// Reports `message` at `token`, unless recovering from an earlier error.
    fn error_at(&mut self, token: Token<'source>, message: &str)
        requires
            old(self).wf(),
        ensures
            balanced(*old(self), *final(self)),
            reported(*old(self), *final(self), token, message@),
            evolves(*old(self), *final(self)),
    {
        if self.panic_mode {
            return;
        }
        self.panic_mode = true;
        let mut text = String::from_str("[line ");
        push_decimal_usize(&mut text, token.line);
        text.append("] Error");
        let ghost head = text@;
        let ghost place = if token.kind == TokenKind::Eof {
            " at end"@
        } else if token.kind == TokenKind::Error {
            ""@
        } else {
            " at '"@ + token.lexeme@ + "'"@
        };
        match token.kind {
            TokenKind::Eof => text.append(" at end"),
            TokenKind::Error => {
                proof {
                    reveal_strlit("");
                    assert(text@ =~= head + place);
                }
            },
            _ => {
                text.append(" at '");
                text.append(token.lexeme);
                text.append("'");
                proof {
                    assert(text@ =~= head + place);
                }
            },
        }
        assert(text@ =~= head + place);
        text.append(": ");
        text.append(message);
        proof {
            assert(text@ =~= head + place + ": "@ + message@);
            assert(text@ =~= error_text(token, message@));
        }
        let ghost before = self.diagnostics@;
        self.diagnostics.push(text);
        self.had_error = true;
        proof {
            assert(self.diagnostics@.drop_last() =~= before);
            lemma_report_added(before, self.diagnostics@, token, message@);
        }
    }

    /// Reports `message` at the previous token.
    pub(crate) fn error(&mut self, message: &str)
        requires
            old(self).wf(),
        ensures
            balanced(*old(self), *final(self)),
            reported(*old(self), *final(self), old(self).previous, message@),
            evolves(*old(self), *final(self)),
    {
        self.error_at(self.previous, message);
    }

    /// Reports `message` at the current token.
    fn error_at_current(&mut self, message: &str)
        requires
            old(self).wf(),
        ensures
            balanced(*old(self), *final(self)),
            reported(*old(self), *final(self), old(self).current, message@),
            evolves(*old(self), *final(self)),
    {
        self.error_at(self.current, message);
    }

    /// Moves to the next token when the current one is of kind `token_kind`,
    /// and says whether it was.
    pub(crate) fn match_token(&mut self, token_kind: TokenKind) -> (matched: bool)
        requires
            old(self).wf(),
        ensures
            balanced(*old(self), *final(self)),
            matched == (old(self).current.kind == token_kind),
            !matched ==> *final(self) == *old(self),
            matched ==> final(self).previous == old(self).current,
            matched && token_kind != TokenKind::Eof ==> final(self).progress() < old(self).progress(),
            matched ==> final(self).compiler == old(self).compiler,
            matched ==> reads_next(*old(self), *final(self)),
            matched && token_kind == TokenKind::Eof ==> final(self).current.kind == TokenKind::Eof
                && final(self).had_error == old(self).had_error,
            evolves(*old(self), *final(self)),
    {
        if !self.check_current_token(token_kind) {
            return false;
        }
        self.advance();
        true
    }

    /// Moves past the current token when it is of kind `token_kind`, and
    /// reports `message` at it otherwise.
    pub(crate) fn consume(&mut self, token_kind: TokenKind, message: &str)
        requires
            old(self).wf(),
        ensures
            balanced(*old(self), *final(self)),
            old(self).current.kind == token_kind ==> final(self).previous == old(self).current,
            old(self).current.kind == token_kind && token_kind != TokenKind::Eof
                ==> final(self).progress() < old(self).progress(),
            old(self).current.kind != token_kind ==> final(self).had_error,
            old(self).current.kind == token_kind ==> reads_next(*old(self), *final(self)),
            final(self).compiler == old(self).compiler,
            evolves(*old(self), *final(self)),
    {
        if self.current.kind == token_kind {
            self.advance();
            return;
        }
        self.error_at_current(message);
    }

    /// Appends `operation` to the chunk being compiled, with the line of the
    /// previous token.
    pub(crate) fn emit_operation(&mut self, operation: Operation)
        requires
            old(self).wf(),
        ensures
            balanced(*old(self), *final(self)),
            emitted(*old(self), *final(self), seq![operation]),
            evolves(*old(self), *final(self)),
    {
        let line = self.previous.line;
        self.compiler.context.function.chunk.write(operation, line);
        proof {
            let c = chunk_of(*old(self));
            let d = chunk_of(*self);
            assert(d.lines@ =~= c.lines@ + Seq::new(1, |i: int| old(self).previous.line));
            assert(d.code@ =~= c.code@ + seq![operation]);
            assert(*self == with_chunk(*old(self), d));
        }
    }

    /// Adds `value` to the constants of the chunk being compiled and appends
    /// the operation that loads it; reports an error when the table is full.
    pub(crate) fn emit_constant(&mut self, value: Value)
        requires
            old(self).wf(),
        ensures
            balanced(*old(self), *final(self)),
            evolves(*old(self), *final(self)),
            chunk_of(*old(self)).constants_count < CONSTANTS_MAX ==> {
                let c = chunk_of(*old(self));
                let d = chunk_of(*final(self));
                &&& d.code@ == c.code@.push(Operation::Constant(c.constants_count as u8))
                &&& d.lines@ == c.lines@.push(old(self).previous.line)
                &&& d.constants@ == c.constants@.update(c.constants_count as int, Some(value))
                &&& d.constants_count == c.constants_count + 1
                &&& *final(self) == with_chunk(*old(self), d)
            },
            chunk_of(*old(self)).constants_count == CONSTANTS_MAX ==> reported(
                *old(self),
                *final(self),
                old(self).previous,
                "Too many constants in one chunk."@,
            ),
    {
        let ghost before = *self;
        match self.compiler.context.function.chunk.add_constant(value) {
            Some(constant_index) => {
                let ghost middle = *self;
                assert(middle == with_chunk(before, chunk_of(middle)));
                self.emit_operation(Operation::Constant(constant_index));
                proof {
                    assert(chunk_of(*self).code@ =~= chunk_of(before).code@.push(
                        Operation::Constant(chunk_of(before).constants_count as u8),
                    ));
                    assert(chunk_of(*self).lines@ =~= chunk_of(before).lines@.push(
                        before.previous.line,
                    ));
                }
            },
            None => {
                self.error("Too many constants in one chunk.");
            },
        }
    }

    /// Adds the name `token_name` to the constants of the chunk being compiled
    /// and gives its index, or `None` when the table is full.
    pub(crate) fn constant_identifier(&mut self, token_name: &str) -> (index: Option<u8>)
        requires
            old(self).wf(),
        ensures
            balanced(*old(self), *final(self)),
            evolves(*old(self), *final(self)),
            ({
                let c = chunk_of(*old(self));
                let d = chunk_of(*final(self));
                &&& *final(self) == with_chunk(*old(self), d)
                &&& d.code == c.code
                &&& d.lines == c.lines
                &&& c.constants_count == CONSTANTS_MAX ==> index is None && d == c
                &&& c.constants_count < CONSTANTS_MAX ==> {
                    &&& index == Some(c.constants_count as u8)
                    &&& d.constants_count == c.constants_count + 1
                    &&& d.constants@[c.constants_count as int] matches Some(Value::String(t))
                        && t@ == token_name@
                    &&& forall|i: int| 0 <= i < CONSTANTS_MAX && i != c.constants_count
                        ==> d.constants@[i] == c.constants@[i]
                }
            }),
    {
        let value = Value::String(token_name.to_string());
        self.compiler.context.function.chunk.add_constant(value)
    }

    /// Appends the operations that return from the function being compiled:
    /// an initialiser returns its instance, any other function `nil`.
    fn emit_return(&mut self)
        requires
            old(self).wf(),
        ensures
            balanced(*old(self), *final(self)),
            emitted(
                *old(self),
                *final(self),
                seq![
                    if old(self).compiler.context.function.kind == FunctionKind::Initializer {
                        Operation::GetLocal(0)
                    } else {
                        Operation::Nil
                    },
                    Operation::Return,
                ],
            ),
            evolves(*old(self), *final(self)),
    {
        let ghost a = *self;
        match self.compiler.context.function.kind {
            FunctionKind::Initializer => self.emit_operation(Operation::GetLocal(0)),
            _ => self.emit_operation(Operation::Nil),
        };
        let ghost b = *self;
        self.emit_operation(Operation::Return);
        proof {
            let first = if a.compiler.context.function.kind == FunctionKind::Initializer {
                Operation::GetLocal(0)
            } else {
                Operation::Nil
            };
            lemma_emitted_chain(a, b, *self, seq![first], seq![Operation::Return]);
            assert(seq![first] + seq![Operation::Return] =~= seq![first, Operation::Return]);
        }
    }

    /// Enters a block scope; a scope nested too deeply for its depth to be
    /// counted is reported as an error instead.
    fn begin_scope(&mut self)
        requires
            old(self).wf(),
        ensures
            balanced(*old(self), *final(self)),
            evolves(*old(self), *final(self)),
            old(self).compiler.context.scope_depth < 255 ==> *final(self) == with_context(
                *old(self),
                (CompilerContext {
                    scope_depth: (old(self).compiler.context.scope_depth + 1) as u8,
                    ..old(self).compiler.context
                }),
            ),
            old(self).compiler.context.scope_depth == 255 ==> reported(
                *old(self),
                *final(self),
                old(self).previous,
                "Too many nested scopes."@,
            ),
    {
        if self.compiler.context.scope_depth == 255 {
            self.error("Too many nested scopes.");
            return;
        }
        self.compiler.context.scope_depth = self.compiler.context.scope_depth + 1;
    }

    /// Leaves a block scope: drops, from the top, the locals declared deeper
    /// than the enclosing scope, appending for each the operation that closes
    /// it over or pops it, and frees their slots.
    fn end_scope(&mut self)
        requires
            old(self).wf(),
        ensures
            balanced(*old(self), *final(self)),
            evolves(*old(self), *final(self)),
            old(self).compiler.context.scope_depth == 0 ==> *final(self) == *old(self),
            old(self).compiler.context.scope_depth > 0 ==> {
                let c = old(self).compiler.context;
                let d = final(self).compiler.context;
                let depth = (c.scope_depth - 1) as u8;
                let kept = kept_count(c.locals@, c.locals_count as int, depth);
                &&& *final(self) == with_context(*old(self), d)
                &&& d.enclosing == c.enclosing
                &&& d.upvalues == c.upvalues
                &&& d.function == (FunctionObject { chunk: d.function.chunk, ..c.function })
                &&& d.scope_depth == depth
                &&& d.locals_count == kept
                &&& d.locals@.len() == c.locals@.len()
                &&& forall|i: int| 0 <= i < kept ==> d.locals@[i] == c.locals@[i]
                &&& forall|i: int| kept <= i < c.locals_count ==> is_unused(d.locals@[i])
                &&& forall|i: int| c.locals_count <= i < c.locals@.len() ==> d.locals@[i]
                    == c.locals@[i]
                &&& d.function.chunk.code@ == c.function.chunk.code@ + leaving_operations(
                    c.locals@,
                    c.locals_count as int,
                    kept,
                )
                &&& d.function.chunk.lines@ == c.function.chunk.lines@ + Seq::new(
                    (c.locals_count - kept) as nat,
                    |i: int| old(self).previous.line,
                )
                &&& d.function.chunk.constants == c.function.chunk.constants
                &&& d.function.chunk.constants_count == c.function.chunk.constants_count
            },
    {
        if self.compiler.context.scope_depth == 0 {
            return;
        }
        let ghost start = *self;
        let ghost c = self.compiler.context;
        self.compiler.context.scope_depth = self.compiler.context.scope_depth - 1;
        let depth = self.compiler.context.scope_depth;
        proof {
            assert(leaving_operations(c.locals@, c.locals_count as int, c.locals_count as int)
                =~= Seq::<Operation>::empty());
            assert(self.compiler.context.function.chunk.code@ =~= c.function.chunk.code@
                + leaving_operations(c.locals@, c.locals_count as int, c.locals_count as int));
            assert(self.compiler.context.function.chunk.lines@ =~= c.function.chunk.lines@
                + Seq::new(0, |i: int| start.previous.line));
        }
        while self.compiler.context.locals_count > 0
            invariant
                self.wf(),
                evolves(start, *self),
                *self == with_context(start, self.compiler.context),
                self.compiler.context.enclosing == c.enclosing,
                self.compiler.context.upvalues == c.upvalues,
                self.compiler.context.function == (FunctionObject {
                    chunk: self.compiler.context.function.chunk,
                    ..c.function
                }),
                self.compiler.context.scope_depth == depth,
                depth == c.scope_depth - 1,
                c.locals@.len() == LOCALS_MAX_COUNT,
                c.locals_count <= LOCALS_MAX_COUNT,
                self.compiler.context.locals_count <= c.locals_count,
                kept_count(c.locals@, self.compiler.context.locals_count as int, depth)
                    == kept_count(c.locals@, c.locals_count as int, depth),
                self.compiler.context.locals@.len() == c.locals@.len(),
                forall|i: int| 0 <= i < self.compiler.context.locals_count
                    ==> self.compiler.context.locals@[i] == c.locals@[i],
                forall|i: int| self.compiler.context.locals_count <= i < c.locals_count
                    ==> is_unused(self.compiler.context.locals@[i]),
                forall|i: int| c.locals_count <= i < c.locals@.len()
                    ==> self.compiler.context.locals@[i] == c.locals@[i],
                self.compiler.context.function.chunk.code@ == c.function.chunk.code@
                    + leaving_operations(
                    c.locals@,
                    c.locals_count as int,
                    self.compiler.context.locals_count as int,
                ),
                self.compiler.context.function.chunk.lines@ == c.function.chunk.lines@ + Seq::new(
                    (c.locals_count - self.compiler.context.locals_count) as nat,
                    |i: int| start.previous.line,
                ),
                self.compiler.context.function.chunk.constants == c.function.chunk.constants,
                self.compiler.context.function.chunk.constants_count
                    == c.function.chunk.constants_count,
                self.previous == start.previous,
            ensures
                self.wf(),
                evolves(start, *self),
                *self == with_context(start, self.compiler.context),
                self.compiler.context.enclosing == c.enclosing,
                self.compiler.context.upvalues == c.upvalues,
                self.compiler.context.function == (FunctionObject {
                    chunk: self.compiler.context.function.chunk,
                    ..c.function
                }),
                self.compiler.context.scope_depth == depth,
                self.compiler.context.locals_count == kept_count(
                    c.locals@,
                    c.locals_count as int,
                    depth,
                ),
                self.compiler.context.locals@.len() == c.locals@.len(),
                forall|i: int| 0 <= i < self.compiler.context.locals_count
                    ==> self.compiler.context.locals@[i] == c.locals@[i],
                forall|i: int| self.compiler.context.locals_count <= i < c.locals_count
                    ==> is_unused(self.compiler.context.locals@[i]),
                forall|i: int| c.locals_count <= i < c.locals@.len()
                    ==> self.compiler.context.locals@[i] == c.locals@[i],
                self.compiler.context.function.chunk.code@ == c.function.chunk.code@
                    + leaving_operations(
                    c.locals@,
                    c.locals_count as int,
                    self.compiler.context.locals_count as int,
                ),
                self.compiler.context.function.chunk.lines@ == c.function.chunk.lines@ + Seq::new(
                    (c.locals_count - self.compiler.context.locals_count) as nat,
                    |i: int| start.previous.line,
                ),
                self.compiler.context.function.chunk.constants == c.function.chunk.constants,
                self.compiler.context.function.chunk.constants_count
                    == c.function.chunk.constants_count,
            decreases self.compiler.context.locals_count,
        {
            let index = self.compiler.context.locals_count - 1;
            let ghost count = self.compiler.context.locals_count;
            match self.compiler.context.locals[index].depth {
                Some(local_depth) => {
                    if local_depth <= depth {
                        break;
                    }
                },
                None => {},
            }
            let ghost before = *self;
            if self.compiler.context.locals[index].is_captured {
                self.emit_operation(Operation::CloseUpvalue);
            } else {
                self.emit_operation(Operation::Pop);
            }
            self.compiler.context.locals_count = index;
            self.compiler.context.locals[index].reset();
            proof {
                let from = c.locals_count as int;
                assert(leaving_operations(c.locals@, from, index as int) =~= leaving_operations(
                    c.locals@,
                    from,
                    count as int,
                ).push(leaving_operation(c.locals@[index as int])));
                assert(self.compiler.context.function.chunk.lines@ =~= c.function.chunk.lines@
                    + Seq::new((c.locals_count - index) as nat, |i: int| start.previous.line));
            }
        }
    }

    /// Declares a local named `name` in the next free slot, not yet
    /// initialised; reports an error when every slot is taken.
    fn add_local(&mut self, name: &'source str)
        requires
            old(self).wf(),
        ensures
            balanced(*old(self), *final(self)),
            evolves(*old(self), *final(self)),
            same_tokens(*old(self), *final(self)),
            local_added(old(self).compiler.context, final(self).compiler.context, name),
            old(self).compiler.context.locals_count == LOCALS_MAX_COUNT ==> reported(
                *old(self),
                *final(self),
                old(self).previous,
                "Too many local variables in function."@,
            ),
            old(self).compiler.context.locals_count < LOCALS_MAX_COUNT ==> *final(self)
                == with_context(*old(self), final(self).compiler.context),
    {
        let locals_count = self.compiler.context.locals_count;
        if locals_count == LOCALS_MAX_COUNT {
            self.error("Too many local variables in function.");
            return;
        }
        self.compiler.context.locals[locals_count].name = name;
        self.compiler.context.locals_count = locals_count + 1;
    }

    /// Declares the variable named by the previous token as a local of the
    /// current scope, unless at the top level, where variables are global;
    /// reports an error when the scope already has a variable of that name.
    fn declare_variable(&mut self)
        requires
            old(self).wf(),
        ensures
            balanced(*old(self), *final(self)),
            evolves(*old(self), *final(self)),
            same_tokens(*old(self), *final(self)),
            old(self).compiler.context.scope_depth == 0 ==> *final(self) == *old(self),
            old(self).compiler.context.scope_depth > 0 ==> {
                let c = old(self).compiler.context;
                let clash = clash_in_scope(
                    c.locals@,
                    LOCALS_MAX_COUNT as int,
                    c.scope_depth,
                    old(self).previous.lexeme@,
                );
                &&& local_added(c, final(self).compiler.context, old(self).previous.lexeme)
                &&& clash ==> final(self).had_error
                &&& c.locals_count == LOCALS_MAX_COUNT ==> final(self).had_error
                &&& !clash && c.locals_count < LOCALS_MAX_COUNT ==> *final(self) == with_context(
                    *old(self),
                    final(self).compiler.context,
                )
            },
    {
        let scope_depth = self.current_scope_depth();
        if scope_depth == 0 {
            return;
        }
        let variable_name = self.previous.lexeme;
        let mut has_match_name_error = false;
        let mut i: usize = LOCALS_MAX_COUNT;
        let ghost locals = self.compiler.context.locals@;
        while i > 0
            invariant
                i <= LOCALS_MAX_COUNT,
                self.compiler.context.locals@ == locals,
                locals.len() == LOCALS_MAX_COUNT,
                scope_depth == self.compiler.context.scope_depth,
                clash_in_scope(locals, LOCALS_MAX_COUNT as int, scope_depth, variable_name@)
                    == (has_match_name_error || clash_in_scope(
                    locals,
                    i as int,
                    scope_depth,
                    variable_name@,
                )),
            ensures
                self.compiler.context.locals@ == locals,
                clash_in_scope(locals, LOCALS_MAX_COUNT as int, scope_depth, variable_name@)
                    == has_match_name_error,
            decreases i,
        {
            let local = &self.compiler.context.locals[i - 1];
            if let Some(depth) = local.depth {
                if depth < scope_depth {
                    assert(!clash_in_scope(locals, i as int, scope_depth, variable_name@));
                    break;
                }
            }
            if str_equal(local.name, variable_name) {
                has_match_name_error = true;
            }
            i = i - 1;
        }
        if has_match_name_error {
            self.error("Already a variable with this name in this scope.");
        }
        self.add_local(variable_name);
    }

    /// Marks the newest local as initialised at the current depth; nothing is
    /// done at the top level.
    fn mark_initialized(&mut self)
        requires
            old(self).wf(),
        ensures
            balanced(*old(self), *final(self)),
            evolves(*old(self), *final(self)),
            ({
                let c = old(self).compiler.context;
                if c.scope_depth == 0 || c.locals_count == 0 {
                    *final(self) == *old(self)
                } else {
                    let slot = c.locals_count - 1;
                    &&& final(self).compiler.context.locals@ == c.locals@.update(
                        slot,
                        Local { depth: Some(c.scope_depth), ..c.locals@[slot] },
                    )
                    &&& *final(self) == with_context(
                        *old(self),
                        (CompilerContext { locals: final(self).compiler.context.locals, ..c }),
                    )
                }
            }),
    {
        let scope_depth = self.current_scope_depth();
        let locals_count = self.compiler.context.locals_count;
        if scope_depth == 0 || locals_count == 0 {
            return;
        }
        self.compiler.context.locals[locals_count - 1].depth = Some(scope_depth);
    }

    /// Makes the variable just declared usable: marks a local initialised, or
    /// appends the operation that defines the global named by constant
    /// `constant_index`.
    fn define_variable(&mut self, constant_index: u8)
        requires
            old(self).wf(),
        ensures
            balanced(*old(self), *final(self)),
            evolves(*old(self), *final(self)),
            old(self).compiler.context.scope_depth == 0 ==> emitted(
                *old(self),
                *final(self),
                seq![Operation::DefineGlobal(constant_index)],
            ),
            same_scope(*old(self), *final(self)),
            same_tokens(*old(self), *final(self)),
            old(self).compiler.context.scope_depth > 0 ==> {
                let c = old(self).compiler.context;
                let d = final(self).compiler.context;
                &&& final(self).had_error == old(self).had_error
                &&& chunk_of(*final(self)) == chunk_of(*old(self))
                &&& d.locals_count == c.locals_count
                &&& c.locals_count > 0 ==> d.locals@ == c.locals@.update(
                    c.locals_count - 1,
                    Local { depth: Some(c.scope_depth), ..c.locals@[c.locals_count - 1] },
                )
            },
    {
        if self.current_scope_depth() > 0 {
            self.mark_initialized();
            return;
        }
        self.emit_operation(Operation::DefineGlobal(constant_index));
    }

    /// Reads a variable name, reporting `error_message` when there is none,
    /// and declares it; gives the constant holding a global's name, zero for
    /// a local, or `None` when the constant table is full.
    fn parse_variable(&mut self, error_message: &str) -> (index: Option<u8>)
        requires
            old(self).wf(),
        ensures
            balanced(*old(self), *final(self)),
            evolves(*old(self), *final(self)),
            old(self).current.kind == TokenKind::Identifier ==> final(self).progress() < old(
                self,
            ).progress(),
            final(self).compiler.context.scope_depth == old(self).compiler.context.scope_depth,
            same_scope(*old(self), *final(self)),
            chunk_of(*final(self)).code == chunk_of(*old(self)).code,
            !final(self).had_error ==> final(self).previous == old(self).current,
            !final(self).had_error ==> reads_next(*old(self), *final(self)),
            old(self).compiler.context.scope_depth > 0 ==> index == Some(0u8),
            old(self).compiler.context.scope_depth == 0 ==> {
                let c = chunk_of(*old(self));
                &&& keeps_frame(*old(self), *final(self))
                &&& index == if c.constants_count < CONSTANTS_MAX {
                    Some(c.constants_count as u8)
                } else {
                    None::<u8>
                }
            },
            old(self).compiler.context.scope_depth > 0 && !final(self).had_error ==> {
                let c = old(self).compiler.context;
                let d = final(self).compiler.context;
                &&& c.locals_count < LOCALS_MAX_COUNT
                &&& d.locals_count == c.locals_count + 1
                &&& d.locals@[c.locals_count as int].name@ == old(self).current.lexeme@
                &&& d.locals@[c.locals_count as int].depth == c.locals@[c.locals_count as int].depth
                &&& forall|i: int| 0 <= i < c.locals_count ==> d.locals@[i] == c.locals@[i]
                &&& forall|i: int| c.locals_count < i < LOCALS_MAX_COUNT ==> d.locals@[i] == c.locals@[i]
            },
            ({
                let c = old(self).compiler.context;
                &&& old(self).current.kind == TokenKind::Identifier
                &&& !old(self).had_error
                &&& scan_step(old(self).scanner.bytes(), old(self).scanner.position()).kind
                    != TokenKind::Error
                &&& c.scope_depth > 0
                &&& c.locals_count < LOCALS_MAX_COUNT
                &&& !clash_in_scope(
                    c.locals@,
                    LOCALS_MAX_COUNT as int,
                    c.scope_depth,
                    old(self).current.lexeme@,
                )
            }) ==> !final(self).had_error,
    {
        self.consume(TokenKind::Identifier, error_message);
        self.declare_variable();
        if self.current_scope_depth() > 0 {
            return Some(0);
        }
        self.constant_identifier(self.previous.lexeme)
    }

    /// Sets the offset of the forward jump just before position
    /// `num_operations_before` of the chunk so that it lands at the end of the
    /// chunk; reports an error when the distance does not fit in a byte, or
    /// when no forward jump is there.
    pub(crate) fn patch_jump(&mut self, num_operations_before: usize)
        requires
            old(self).wf(),
        ensures
            balanced(*old(self), *final(self)),
            evolves(*old(self), *final(self)),
            ({
                let c = chunk_of(*old(self));
                let n = c.code@.len();
                let far = n < num_operations_before || n - num_operations_before > 255;
                let at = num_operations_before - 1;
                if far {
                    reported(*old(self), *final(self), old(self).previous, "Loop body too large."@)
                } else if num_operations_before == 0 || patched(
                    c.code@[at],
                    (n - num_operations_before) as u8,
                ) is None {
                    reported(
                        *old(self),
                        *final(self),
                        old(self).previous,
                        "Could not find reference to added jump_if_false operation."@,
                    )
                } else {
                    let d = chunk_of(*final(self));
                    &&& d.code@ == c.code@.update(
                        at,
                        patched(c.code@[at], (n - num_operations_before) as u8)->0,
                    )
                    &&& d.lines == c.lines
                    &&& d.constants == c.constants
                    &&& d.constants_count == c.constants_count
                    &&& *final(self) == with_chunk(*old(self), d)
                }
            }),
    {
        let num_operations_after = self.current_chunk().code.len();
        if num_operations_after < num_operations_before || num_operations_after
            - num_operations_before > 255 {
            self.error("Loop body too large.");
            return;
        }
        let offset = (num_operations_after - num_operations_before) as u8;
        if num_operations_before == 0 {
            self.error("Could not find reference to added jump_if_false operation.");
            return;
        }
        let at = num_operations_before - 1;
        match self.current_chunk().code[at] {
            Operation::JumpIfFalse(_) => {
                self.compiler.context.function.chunk.code.set(at, Operation::JumpIfFalse(offset));
            },
            Operation::Jump(_) => {
                self.compiler.context.function.chunk.code.set(at, Operation::Jump(offset));
            },
            _ => {
                self.error("Could not find reference to added jump_if_false operation.");
            },
        }
    }

    /// Appends a backward jump to position `num_operations_loop_start`, its
    /// offset the distance from there to the end of the chunk; reports an
    /// error when that does not fit in a byte.
    fn emit_loop(&mut self, num_operations_loop_start: usize)
        requires
            old(self).wf(),
        ensures
            balanced(*old(self), *final(self)),
            evolves(*old(self), *final(self)),
            ({
                let n = chunk_of(*old(self)).code@.len();
                if n < num_operations_loop_start || n - num_operations_loop_start > 255 {
                    reported(*old(self), *final(self), old(self).previous, "Loop body too large."@)
                } else {
                    emitted(
                        *old(self),
                        *final(self),
                        seq![Operation::Loop((n - num_operations_loop_start) as u8)],
                    )
                }
            }),
    {
        let n = self.current_chunk().code.len();
        if n < num_operations_loop_start || n - num_operations_loop_start > 255 {
            self.error("Loop body too large.");
            return;
        }
        self.emit_operation(Operation::Loop((n - num_operations_loop_start) as u8));
    }

    /// Starts compiling a function of kind `function_kind`, named by the
    /// previous token, inside the one being compiled.
    fn init_compiler(&mut self, function_kind: FunctionKind)
        requires
            old(self).wf(),
        ensures
            evolves(*old(self), *final(self)),
            *final(self) == with_context(*old(self), final(self).compiler.context),
            final(self).compiler.context.enclosing == Some(Box::new(old(self).compiler.context)),
            fresh_context(final(self).compiler.context, old(self).previous.lexeme@, function_kind),
    {
        let name = self.previous.lexeme;
        let mut compiler_context = CompilerContext::new(name, function_kind);
        std::mem::swap(&mut compiler_context, &mut self.compiler.context);
        self.compiler.context.enclosing = Some(Box::new(compiler_context));
    }

    /// Ends compiling the current function: appends its return and, unless
    /// it is the top-level script, goes back to the function enclosing it and
    /// gives the finished function with its captured variables.
    fn end_compiler(&mut self) -> (r: Option<(FunctionObject, Vec<Upvalue>)>)
        requires
            old(self).wf(),
        ensures
            evolves(*old(self), *final(self)),
            ({
                let c = old(self).compiler.context;
                let ret = seq![
                    if c.function.kind == FunctionKind::Initializer {
                        Operation::GetLocal(0)
                    } else {
                        Operation::Nil
                    },
                    Operation::Return,
                ];
                match c.enclosing {
                    None => r is None && emitted(*old(self), *final(self), ret),
                    Some(parent) => {
                        &&& *final(self) == with_context(*old(self), *parent)
                        &&& r matches Some((f, u)) && {
                            &&& f == (FunctionObject { chunk: f.chunk, ..c.function })
                            &&& f.chunk.code@ == c.function.chunk.code@ + ret
                            &&& f.chunk.wf()
                            &&& u == c.upvalues
                            &&& f.upvalue_count <= 255
                            &&& u@.len() == UPVALUES_MAX_COUNT
                        }
                    },
                }
            }),
    {
        self.emit_return();
        match self.compiler.context.enclosing.take() {
            None => None,
            Some(parent) => {
                let mut context = *parent;
                std::mem::swap(&mut context, &mut self.compiler.context);
                Some((context.function, context.upvalues))
            },
        }
    }

    /// Recovers from an error: skips tokens until one that ends or starts a
    /// statement.
    fn synchronise(&mut self)
        requires
            old(self).wf(),
        ensures
            balanced(*old(self), *final(self)),
            evolves(*old(self), *final(self)),
            final(self).compiler == old(self).compiler,
            final(self).current.kind == TokenKind::Eof || final(self).previous.kind
                == TokenKind::Semicolon || starts_statement(final(self).current.kind),
            final(self).panic_mode ==> final(self).diagnostics@.len() > old(
                self,
            ).diagnostics@.len(),
    {
        self.panic_mode = false;
        while self.current.kind != TokenKind::Eof
            invariant
                self.wf(),
                evolves(*old(self), *self),
                self.compiler == old(self).compiler,
                self.panic_mode ==> self.diagnostics@.len() > old(self).diagnostics@.len(),
            decreases self.progress(),
        {
            if self.previous.kind == TokenKind::Semicolon {
                return;
            }
            match self.current.kind {
                TokenKind::Class | TokenKind::Fun | TokenKind::Var | TokenKind::For
                | TokenKind::If | TokenKind::While | TokenKind::Print | TokenKind::Return => {
                    return;
                },
                _ => {},
            }
            self.advance();
        }
    }

    /// Moves to the next token, reporting and skipping error tokens.
    pub(crate) fn advance(&mut self)
        requires
            old(self).can_start(),
        ensures
            final(self).wf(),
            final(self).previous == old(self).current,
            final(self).progress() <= old(self).progress(),
            old(self).current.kind != TokenKind::Eof ==> final(self).progress() < old(self).progress(),
            old(self).had_error ==> final(self).had_error,
            old(self).panic_mode ==> final(self).panic_mode,
            keeps_reports(old(self).diagnostics@, final(self).diagnostics@),
            final(self).scanner.bytes() == old(self).scanner.bytes(),
            final(self).number_literals == old(self).number_literals,
            final(self).compiler == old(self).compiler,
            final(self).class_compiler == old(self).class_compiler,
            evolves(*old(self), *final(self)),
            steps_forward(*old(self), *final(self)),
            final(self).panic_mode ==> old(self).panic_mode || final(self).diagnostics@.len() > old(
                self,
            ).diagnostics@.len(),
            reads_next(*old(self), *final(self)),
            scan_step(old(self).scanner.bytes(), old(self).scanner.position()).kind
                == TokenKind::Eof ==> {
                &&& final(self).current.kind == TokenKind::Eof
                &&& final(self).diagnostics == old(self).diagnostics
                &&& final(self).had_error == old(self).had_error
                &&& final(self).panic_mode == old(self).panic_mode
            },
    {
        let ghost b = self.scanner.bytes();
        let ghost p0 = self.scanner.position();
        let ghost old_self = *self;
        let ghost mut rounds: nat = 0;
        self.previous = self.current;
        loop
            invariant_except_break
                rounds == 0 ==> self.scanner.position() == p0 && self.diagnostics
                    == old_self.diagnostics && self.had_error == old_self.had_error
                    && self.panic_mode == old_self.panic_mode,
            invariant
                rounds > 0 ==> scan_step(b, p0).kind == TokenKind::Error && self.had_error,
                self.scanner.wf(),
                self.scanner.bytes() == b,
                scans_cleanly(b, self.scanner.position()),
                self.scanner.position() >= p0,
                old_self.current.kind == TokenKind::Eof ==> self.scanner.position() == p0,
                old_self.current.kind == TokenKind::Eof ==> scan_step(b, p0).kind == TokenKind::Eof
                    && scan_step(b, p0).next == p0,
                self.previous == old_self.current,
                token_wf(self.previous),
                self.panic_mode ==> self.had_error,
                self.had_error <==> self.diagnostics@.len() > 0,
                reports_are_errors(self.diagnostics@),
                old_self.had_error ==> self.had_error,
                old_self.panic_mode ==> self.panic_mode,
                self.panic_mode ==> old_self.panic_mode || self.diagnostics@.len()
                    > old_self.diagnostics@.len(),
                keeps_reports(old_self.diagnostics@, self.diagnostics@),
                context_wf(self.compiler.context),
                self.number_literals == old_self.number_literals,
                self.compiler == old_self.compiler,
                self.class_compiler == old_self.class_compiler,
            ensures
                scan_step(b, p0).kind == TokenKind::Error ==> self.had_error,
                scan_step(b, p0).kind != TokenKind::Error ==> self.current.kind == scan_step(b, p0).kind
                    && token_text_matches(b, self.current, scan_step(b, p0).lexeme)
                    && self.scanner.position() == scan_step(b, p0).next
                    && self.diagnostics == old_self.diagnostics && self.had_error
                    == old_self.had_error && self.panic_mode == old_self.panic_mode,
                scan_step(b, p0).kind == TokenKind::Eof ==> self.current.kind == TokenKind::Eof
                    && self.diagnostics == old_self.diagnostics && self.had_error
                    == old_self.had_error && self.panic_mode == old_self.panic_mode,
                self.scanner.wf(),
                self.scanner.bytes() == b,
                scans_cleanly(b, self.scanner.position()),
                self.scanner.position() >= p0,
                self.current.kind != TokenKind::Eof ==> self.scanner.position() > p0,
                old_self.current.kind == TokenKind::Eof ==> self.current.kind == TokenKind::Eof,
                self.current.kind == TokenKind::Eof ==> scan_step(b, self.scanner.position()).kind
                    == TokenKind::Eof && scan_step(b, self.scanner.position()).next
                    == self.scanner.position(),
                self.current.kind != TokenKind::Error,
                token_wf(self.current),
                self.previous == old_self.current,
                token_wf(self.previous),
                self.panic_mode ==> self.had_error,
                self.had_error <==> self.diagnostics@.len() > 0,
                reports_are_errors(self.diagnostics@),
                old_self.had_error ==> self.had_error,
                old_self.panic_mode ==> self.panic_mode,
                self.panic_mode ==> old_self.panic_mode || self.diagnostics@.len()
                    > old_self.diagnostics@.len(),
                keeps_reports(old_self.diagnostics@, self.diagnostics@),
                context_wf(self.compiler.context),
                self.number_literals == old_self.number_literals,
                self.compiler == old_self.compiler,
                self.class_compiler == old_self.class_compiler,
            decreases b.len() - self.scanner.position(),
        {
            let ghost q = self.scanner.position();
            proof {
                lemma_scans_cleanly_step(b, q);
                crate::lox::scanner::law_scanning_advances(b, q);
                if scan_step(b, q).kind == TokenKind::String {
                    lemma_string_token(b, q);
                }
                if scan_step(b, q).kind == TokenKind::Eof {
                    law_end_of_file_repeats(b, q);
                }
            }
            self.current = self.scanner.scan_token();
            proof {
                if self.current.kind == TokenKind::String {
                    let e = scan_step(b, q).lexeme;
                    assert(e is Span);
                }
            }
            if self.current.kind != TokenKind::Error {
                break;
            }
            let ghost d = self.diagnostics@;
            let message = self.current.lexeme;
            if !self.panic_mode {
                self.panic_mode = true;
                let mut text = String::from_str("[line ");
                push_decimal_usize(&mut text, self.current.line);
                text.append("] Error");
                proof {
                    reveal_strlit("");
                    let head = "[line "@ + decimal_text(self.current.line as nat) + "] Error"@;
                    assert(text@ =~= head + ""@);
                }
                text.append(": ");
                text.append(message);
                proof {
                    assert(text@ =~= error_text(self.current, message@));
                }
                self.diagnostics.push(text);
                self.had_error = true;
                proof {
                    assert(self.diagnostics@.drop_last() =~= d);
                    lemma_report_added(d, self.diagnostics@, self.current, message@);
                }
            }
            proof {
                rounds = rounds + 1;
            }
        }
    }
}


impl<'source> Parser<'source> {
    /// Parses one declaration or statement; after an error, skips ahead to
    /// the start of the next statement.
    fn declaration(&mut self)
        requires
            old(self).wf(),
        ensures
            balanced(*old(self), *final(self)),
            evolves(*old(self), *final(self)),
            steps_forward(*old(self), *final(self)),
            continues(*old(self), *final(self)),
            starts_nothing(old(self).current.kind) ==> final(self).had_error,
        decreases old(self).progress(), 8nat,
    {
        if self.match_token(TokenKind::Class) {
            self.class_declaration();
        } else if self.match_token(TokenKind::Fun) {
            self.fun_declaration();
        } else if self.match_token(TokenKind::Var) {
            self.var_declaration();
        } else {
            self.statement();
        }
        if self.panic_mode {
            self.synchronise();
        }
    }

    /// Parses a class declaration after `class`: its name, an optional
    /// superclass after `<`, and its methods between braces.
    #[verifier::spinoff_prover]
    #[verifier::rlimit(100)]
    fn class_declaration(&mut self)
        requires
            old(self).wf(),
        ensures
            balanced(*old(self), *final(self)),
            evolves(*old(self), *final(self)),
            continues(*old(self), *final(self)),
            old(self).current.kind == TokenKind::Identifier ==> final(self).progress() < old(
                self,
            ).progress(),
            inherits_from_itself(*old(self)) ==> final(self).had_error,
            plain_class_follows(*old(self)) && !old(self).had_error ==> !final(self).had_error,
            names_superclass(*old(self)) && !final(self).had_error ==> {
                let start = chunk_of(*old(self)).code@.len() as int;
                let code = chunk_of(*final(self)).code@;
                exists|i: int|
                    #![trigger code[i]]
                    start < i < code.len() && code[i] == Operation::Inherit
            },

            !final(self).had_error ==> {
                let c = chunk_of(*old(self));
                let start = c.code@.len() as int;
                let code = chunk_of(*final(self)).code@;
                &&& code.len() > start + 1
                &&& code[start] == Operation::Class(c.constants_count as u8)
                &&& old(self).compiler.context.scope_depth == 0 ==> code[start + 1]
                    == Operation::DefineGlobal(c.constants_count as u8)
            },
        decreases old(self).progress(), 12nat,
    {
        let ghost s0 = *self;
        self.consume(TokenKind::Identifier, "Expect class name.");
        let class_name = self.previous.lexeme;
        let name_constant_index = match self.constant_identifier(class_name) {
            Some(index) => index,
            None => {
                self.error("No constants defined.");
                return;
            },
        };
        self.declare_variable();
        self.emit_operation(Operation::Class(name_constant_index));
        self.define_variable(name_constant_index);
        let ghost entry = *self;
        let ghost mut lifted = false;
        let ghost start: int = chunk_of(s0).code@.len() as int;
        let ghost mut inherit_at: int = 0;
        assert(names_superclass(s0) ==> self.had_error || self.current.kind == TokenKind::Less);
        assert(!self.had_error ==> chunk_of(*self).code@.len() > start);
        let ghost b = s0.scanner.bytes();
        let ghost t1 = scan_step(b, s0.scanner.position());
        let ghost t2 = scan_step(b, t1.next);
        assert(inherits_from_itself(s0) ==> self.current.kind == TokenKind::Less
            && self.scanner.position() == t1.next && self.scanner.bytes() == b
            && class_name@ == s0.current.lexeme@);
        let current_class_compiler = self.class_compiler.take();
        self.class_compiler = Some(Box::new(ClassCompiler::new(current_class_compiler)));
        if self.match_token(TokenKind::Less) {
            assert(inherits_from_itself(s0) ==> self.current.kind == TokenKind::Identifier
                && token_text_matches(b, self.current, t2.lexeme));
            self.consume(TokenKind::Identifier, "Expect superclass name.");
            self.variable(false);
            proof {
                broadcast use vstd::utf8::encode_utf8_decode_utf8;
                assert(class_name@ == vstd::utf8::decode_utf8(class_name.spec_bytes()));
                assert(self.previous.lexeme@ == vstd::utf8::decode_utf8(self.previous.lexeme.spec_bytes()));
                assert(s0.current.lexeme@ == vstd::utf8::decode_utf8(s0.current.lexeme.spec_bytes()));
            }
            assert(inherits_from_itself(s0) ==> class_name@ == self.previous.lexeme@);
            if str_equal(class_name, self.previous.lexeme) {
                self.error("A class can't inherit from itself.");
            }
            self.begin_scope();
            self.add_local(SUPER_STRING);
            self.define_variable(0);
            self.named_variable(class_name, false);
            let ghost before_inherit = *self;
            self.emit_operation(Operation::Inherit);
            proof {
                inherit_at = chunk_of(before_inherit).code@.len() as int;
                assert(chunk_of(*self).code@[inherit_at] == Operation::Inherit);
            }
            let mut class_compiler = self.class_compiler.take().unwrap();
            class_compiler.has_superclass = true;
            self.class_compiler = Some(class_compiler);
            proof {
                lifted = true;
            }
        }
        let ghost ok = plain_class_follows(s0) && !s0.had_error;
        assert(ok ==> !self.had_error && self.current.kind == TokenKind::LeftBrace
            && self.scanner.position() == t1.next && self.scanner.bytes() == b
            && class_name@ == s0.current.lexeme@
            && local_lookup(self.compiler.context, class_name@) == local_lookup(s0.compiler.context, class_name@)
            && name_in_enclosing(self.compiler.context, class_name@) == name_in_enclosing(s0.compiler.context, class_name@)
            && chunk_of(*self).constants_count == chunk_of(s0).constants_count + 1);
        self.named_variable(class_name, false);
        assert(ok ==> !self.had_error && self.current.kind == TokenKind::LeftBrace
            && self.scanner.position() == t1.next && self.scanner.bytes() == b);
        self.consume(TokenKind::LeftBrace, "Expect '{' before class body.");
        assert(ok ==> !self.had_error && self.current.kind == TokenKind::RightBrace
            && self.scanner.position() == t2.next && self.scanner.bytes() == b);
        let ghost mid = *self;
        assert(!mid.had_error ==> {
            &&& keeps_code(entry, mid)
            &&& enclosing_frames(mid.compiler.context) == enclosing_frames(entry.compiler.context)
            &&& mid.compiler.context.function.kind == entry.compiler.context.function.kind
            &&& mid.compiler.context.scope_depth == entry.compiler.context.scope_depth + if lifted {
                1int
            } else {
                0int
            }
        });
        assert(mid.class_compiler->0.has_superclass == lifted);
        assert(names_superclass(s0) && !mid.had_error ==> lifted);
        assert(lifted && !mid.had_error ==> start < inherit_at < chunk_of(mid).code@.len()
            && chunk_of(mid).code@[inherit_at] == Operation::Inherit);
        while !self.check_current_token(TokenKind::RightBrace) && !self.check_current_token(
            TokenKind::Eof,
        )
            invariant
                self.wf(),
                moves_on(*old(self), *self),
                balanced(*old(self), *self),
                self.class_compiler matches Some(c) && c.enclosing == entry.class_compiler,
                entry.class_compiler == old(self).class_compiler,
                self.class_compiler == mid.class_compiler,
                continues(mid, *self),
                mid.had_error ==> self.had_error,
                old(self).current.kind == TokenKind::Identifier ==> self.progress() < old(
                    self,
                ).progress(),
                ok ==> *self == mid,
                ok ==> mid.current.kind == TokenKind::RightBrace && !mid.had_error
                    && mid.scanner.position() == t2.next && mid.scanner.bytes() == b,
                ok == (plain_class_follows(s0) && !s0.had_error),
                s0 == *old(self),
                start == chunk_of(s0).code@.len(),
                lifted && !mid.had_error ==> start < inherit_at < chunk_of(mid).code@.len()
                    && chunk_of(mid).code@[inherit_at] == Operation::Inherit,
            decreases self.progress(),
        {
            let before = self.scanner.offset();
            self.method();
            if self.scanner.offset() == before {
                // No token was consumed: the constant table is full and the
                // body can never be read further.
                break;
            }
        }
        assert(lifted && !self.had_error ==> chunk_of(*self).code@[inherit_at] == Operation::Inherit
            && start < inherit_at < chunk_of(*self).code@.len());
        self.consume(TokenKind::RightBrace, "Expect '}' after class body.");
        self.emit_operation(Operation::Pop);
        let current_class_compiler = self.class_compiler.take().unwrap();
        if current_class_compiler.has_superclass {
            self.end_scope();
        }
        self.class_compiler = current_class_compiler.enclosing;
        assert(lifted && !self.had_error ==> chunk_of(*self).code@[inherit_at] == Operation::Inherit
            && start < inherit_at < chunk_of(*self).code@.len());
        assert(names_superclass(s0) && !self.had_error ==> lifted);
    }

    /// Parses a method: its name, then the function.
    fn method(&mut self)
        requires
            old(self).wf(),
        ensures
            balanced(*old(self), *final(self)),
            evolves(*old(self), *final(self)),
            continues(*old(self), *final(self)),
            old(self).current.kind == TokenKind::Identifier ==> final(self).progress() < old(
                self,
            ).progress(),
            !final(self).had_error ==> {
                let c = chunk_of(*old(self));
                let d = chunk_of(*final(self));
                &&& keeps_frame(*old(self), *final(self))
                &&& ends_with(*final(self), seq![Operation::Method(c.constants_count as u8)])
                &&& c.constants_count + 1 < CONSTANTS_MAX
                &&& d.constants@[c.constants_count as int] matches Some(Value::String(t)) && t@
                    == old(self).current.lexeme@
                &&& d.constants@[c.constants_count + 1] matches Some(Value::FunctionObject(f))
                    && f.kind == if old(self).current.lexeme@ == "init"@ {
                    FunctionKind::Initializer
                } else {
                    FunctionKind::Method
                }
            },
        decreases old(self).progress(), 11nat,
    {
        self.consume(TokenKind::Identifier, "Expect method name.");
        let constant_index = match self.constant_identifier(self.previous.lexeme) {
            Some(index) => index,
            None => {
                self.error("No constants defined.");
                return;
            },
        };
        let function_kind = if str_equal(self.previous.lexeme, "init") {
            FunctionKind::Initializer
        } else {
            FunctionKind::Method
        };
        self.function(function_kind);
        let ghost before = *self;
        self.emit_operation(Operation::Method(constant_index));
        proof {
            lemma_emitted_ends(before, *self, seq![Operation::Method(constant_index)]);
        }
    }

    /// Parses a function declaration after `fun`.
    fn fun_declaration(&mut self)
        requires
            old(self).wf(),
        ensures
            balanced(*old(self), *final(self)),
            evolves(*old(self), *final(self)),
            continues(*old(self), *final(self)),
            old(self).current.kind == TokenKind::Identifier ==> final(self).progress() < old(
                self,
            ).progress(),
            !final(self).had_error && old(self).compiler.context.scope_depth == 0 ==> ends_with(
                *final(self),
                seq![Operation::DefineGlobal(chunk_of(*old(self)).constants_count as u8)],
            ),
            !final(self).had_error && old(self).compiler.context.scope_depth > 0
                ==> declared_local(*old(self), *final(self)),
        decreases old(self).progress(), 11nat,
    {
        let constant_index = match self.parse_variable("Expect function name.") {
            Some(index) => index,
            None => {
                self.error("Reached constant limit.");
                return;
            },
        };
        self.mark_initialized();
        self.function(FunctionKind::Function);
        let ghost before = *self;
        self.define_variable(constant_index);
        proof {
            if before.compiler.context.scope_depth == 0 {
                lemma_emitted_ends(before, *self, seq![Operation::DefineGlobal(constant_index)]);
            }
        }
    }

    /// Parses the parameters of the function being compiled, up to the `)`
    /// that closes them: names separated by `,`, each declared as a local and
    /// counted in the arity; the first name is the token scanned from
    /// position `first`.
    #[verifier::spinoff_prover]
    #[verifier::rlimit(80)]
    fn parameter_list(&mut self, first: Ghost<int>)
        requires
            old(self).wf(),
            old(self).compiler.context.function.arity == 0,
            !old(self).had_error ==> old(self).current.kind == scan_step(
                old(self).scanner.bytes(),
                first@,
            ).kind && old(self).scanner.position() == scan_step(
                old(self).scanner.bytes(),
                first@,
            ).next && token_text_matches(
                old(self).scanner.bytes(),
                old(self).current,
                scan_step(old(self).scanner.bytes(), first@).lexeme,
            ),
            old(self).compiler.context.scope_depth == 1,
        ensures
            evolves(*old(self), *final(self)),
            !final(self).had_error ==> {
                let c = old(self).compiler.context;
                let d = final(self).compiler.context;
                &&& context_depth(d) == context_depth(c)
                &&& enclosing_frames(d) == enclosing_frames(c)
                &&& d.function.kind == c.function.kind
                &&& d.function.name@ == c.function.name@
                &&& d.scope_depth == c.scope_depth
                &&& d.function.arity == parameter_count(old(self).scanner.bytes(), first@, 254)
            },
    {
        let ghost b = self.scanner.bytes();
        let ghost total = parameter_count(b, first@, 254);
        let ghost mut q: int = first@;
        loop
            invariant_except_break
                !self.had_error ==> self.current.kind == scan_step(b, q).kind
                    && self.scanner.position() == scan_step(b, q).next
                    && token_text_matches(b, self.current, scan_step(b, q).lexeme),
                !self.had_error && self.compiler.context.function.arity <= 254 ==> total
                    == self.compiler.context.function.arity + parameter_count(
                    b,
                    q,
                    (254 - self.compiler.context.function.arity) as nat,
                ),
            invariant
                self.wf(),
                self.scanner.bytes() == b,
                b == old(self).scanner.bytes(),
                total == parameter_count(b, first@, 254),
                evolves(*old(self), *self),
                self.compiler.context.function.arity == 0 ==> q == first@,
                !self.had_error ==> {
                    let c = old(self).compiler.context;
                    let d = self.compiler.context;
                    &&& context_depth(d) == context_depth(c)
                    &&& enclosing_frames(d) == enclosing_frames(c)
                    &&& d.function.kind == c.function.kind
                    &&& d.function.name@ == c.function.name@
                    &&& d.scope_depth == c.scope_depth
                },
            ensures
                self.wf(),
                evolves(*old(self), *self),
                !self.had_error ==> {
                    let c = old(self).compiler.context;
                    let d = self.compiler.context;
                    &&& context_depth(d) == context_depth(c)
                    &&& enclosing_frames(d) == enclosing_frames(c)
                    &&& d.function.kind == c.function.kind
                    &&& d.function.name@ == c.function.name@
                    &&& d.scope_depth == c.scope_depth
                    &&& d.function.arity == total
                },
            decreases self.progress(),
        {
            if self.compiler.context.function.arity == FUNCTION_ARITY_MAX_COUNT {
                self.error_at_current("Can't have more than 255 parameters.");
                return;
            }
            self.compiler.context.function.arity = self.compiler.context.function.arity + 1;
            let constant_index = match self.parse_variable("Expect parameter name.") {
                Some(index) => index,
                None => {
                    self.error("Reached constant limit.");
                    return;
                },
            };
            self.define_variable(constant_index);
            let ghost at_separator = self.scanner.position();
            if !self.match_token(TokenKind::Comma) {
                break;
            }
            proof {
                q = at_separator;
            }
        }
    }

    /// Adds `function` as the next constant of the chunk being compiled and
    /// appends the operation that makes a closure of it, then, for each
    /// variable it captures, whether that is a local of the enclosing
    /// function and its index; reports an error when the constant table is
    /// full.
    fn emit_closure(&mut self, function: FunctionObject, upvalues: &Vec<Upvalue>)
        requires
            old(self).wf(),
            function.upvalue_count <= 255,
            upvalues@.len() == UPVALUES_MAX_COUNT,
        ensures
            evolves(*old(self), *final(self)),
            balanced(*old(self), *final(self)),
            keeps_frame(*old(self), *final(self)),
            keeps_code(*old(self), *final(self)),
            chunk_of(*old(self)).constants_count == CONSTANTS_MAX ==> reported(
                *old(self),
                *final(self),
                old(self).previous,
                "Too many constants in one chunk."@,
            ),
            chunk_of(*old(self)).constants_count < CONSTANTS_MAX ==> {
                let c = chunk_of(*old(self));
                let d = chunk_of(*final(self));
                let n = c.code@.len();
                let k = c.constants_count as int;
                let count = function.upvalue_count as int;
                &&& final(self).had_error == old(self).had_error
                &&& d.constants_count == c.constants_count + 1
                &&& d.constants@ == c.constants@.update(k, d.constants@[k])
                &&& d.constants@[k] matches Some(Value::FunctionObject(f)) && *f == function
                &&& d.code@.len() == n + 1 + 2 * count
                &&& d.code@[n as int] == Operation::Closure(c.constants_count as u8)
                &&& forall|m: int|
                    #![trigger d.code@[n + 1 + 2 * m]]
                    0 <= m < count ==> d.code@[n + 1 + 2 * m] == Operation::ClosureIsLocalByte(
                        upvalues@[m].is_local,
                    ) && d.code@[n + 2 + 2 * m] == Operation::ClosureIndexByte(upvalues@[m].index)
            },
    {
        let upvalue_count = function.upvalue_count;
        let ghost made = function;
        let constant_index = match self.compiler.context.function.chunk.add_constant(
            Value::FunctionObject(Rc::new(function)),
        ) {
            Some(index) => index,
            None => {
                self.error("Too many constants in one chunk.");
                return;
            },
        };
        let ghost s6 = *self;
        self.emit_operation(Operation::Closure(constant_index));
        let ghost s7 = *self;
        let ghost n = chunk_of(s6).code@.len();
        let mut i: usize = 0;
        while i < upvalue_count
            invariant
                self.wf(),
                evolves(*old(self), *self),
                balanced(*old(self), *self),
                i <= upvalue_count <= 255,
                upvalue_count == made.upvalue_count,
                upvalues@.len() == UPVALUES_MAX_COUNT,
                keeps_frame(*old(self), *self),
                keeps_code(*old(self), *self),
                keeps_frame(s7, *self),
                keeps_code(s7, *self),
                chunk_of(s7).code@.len() == n + 1,
                chunk_of(s7).code@[n as int] == Operation::Closure(constant_index),
                s7.had_error == self.had_error,
                chunk_of(*self).constants == chunk_of(s7).constants,
                chunk_of(*self).constants_count == chunk_of(s7).constants_count,
                chunk_of(*self).code@.len() == chunk_of(s7).code@.len() + 2 * i,
                forall|m: int|
                    #![trigger chunk_of(*self).code@[n + 1 + 2 * m]]
                    0 <= m < i ==> chunk_of(*self).code@[n + 1 + 2 * m]
                        == Operation::ClosureIsLocalByte(upvalues@[m].is_local)
                        && chunk_of(*self).code@[n + 2 + 2 * m] == Operation::ClosureIndexByte(
                        upvalues@[m].index,
                    ),
            decreases upvalue_count - i,
        {
            let upvalue = &upvalues[i];
            let ghost b0 = *self;
            self.emit_operation(Operation::ClosureIsLocalByte(upvalue.is_local));
            let ghost b1 = *self;
            self.emit_operation(Operation::ClosureIndexByte(upvalue.index));
            proof {
                let code = chunk_of(*self).code@;
                let code0 = chunk_of(b0).code@;
                let code1 = chunk_of(b1).code@;
                assert(code[n as int] == code0[n as int]);
                assert forall|m: int|
                    #![trigger code[n + 1 + 2 * m]]
                    0 <= m < i + 1 implies code[n + 1 + 2 * m] == Operation::ClosureIsLocalByte(
                        upvalues@[m].is_local,
                    ) && code[n + 2 + 2 * m] == Operation::ClosureIndexByte(upvalues@[m].index) by {
                    if m < i {
                        assert(code1[n + 1 + 2 * m] == code0[n + 1 + 2 * m]);
                        assert(code1[n + 2 + 2 * m] == code0[n + 2 + 2 * m]);
                        assert(code[n + 1 + 2 * m] == code1[n + 1 + 2 * m]);
                        assert(code[n + 2 + 2 * m] == code1[n + 2 + 2 * m]);
                    }
                }
            }
            i = i + 1;
        }
    }

    /// Parses the parameters and body of a function of kind `function_kind`,
    /// compiling it on its own, then appends the closure that creates it with
    /// the variables it captures.
    #[verifier::spinoff_prover]
    #[verifier::rlimit(100)]
    fn function(&mut self, function_kind: FunctionKind)
        requires
            old(self).wf(),
        ensures
            balanced(*old(self), *final(self)),
            evolves(*old(self), *final(self)),
            continues(*old(self), *final(self)),
            !final(self).had_error ==> keeps_frame(*old(self), *final(self)),
            !final(self).had_error ==> made_closure(*old(self), *final(self), function_kind),
            simple_function_follows(*old(self)) && !old(self).had_error
                && chunk_of(*old(self)).constants_count < CONSTANTS_MAX ==> !final(self).had_error,
        decreases old(self).progress(), 10nat,
    {
        let ghost s0 = *self;
        let ghost b = s0.scanner.bytes();
        let ghost total = declared_parameters(s0);
        let ghost q: int = s0.scanner.position();
        self.init_compiler(function_kind);
        let ghost s1 = *self;
        proof {
            assert(enclosing_frames(s1.compiler.context) == seq![frame(s0.compiler.context)]
                + enclosing_frames(s0.compiler.context));
        }
        self.begin_scope();
        self.consume(TokenKind::LeftParen, "Expect '(' after function name.");
        assert(!self.had_error ==> enclosing_frames(self.compiler.context) == enclosing_frames(
            s1.compiler.context,
        ));
        let ghost ok = simple_function_follows(s0) && !s0.had_error
            && chunk_of(s0).constants_count < CONSTANTS_MAX;
        assert(!self.had_error ==> self.current.kind == scan_step(b, q).kind
            && self.scanner.position() == scan_step(b, q).next && self.scanner.bytes() == b
            && self.compiler.context.function.arity == 0);
        if !self.check_current_token(TokenKind::RightParen) {
            self.parameter_list(Ghost(q));
        }
        assert(!self.had_error ==> total == self.compiler.context.function.arity);
        assert(ok ==> self.current.kind == TokenKind::RightParen && !self.had_error
            && self.scanner.position() == parameters_close(s0)
            && self.scanner.bytes() == s0.scanner.bytes());
        self.consume(TokenKind::RightParen, "Expect ')' after parameters.");
        self.consume(TokenKind::LeftBrace, "Expect '{' before function body.");
        assert(ok ==> self.current.kind == TokenKind::RightBrace && !self.had_error
            && self.scanner.bytes() == s0.scanner.bytes());
        assert(!self.had_error ==> enclosing_frames(self.compiler.context) == enclosing_frames(
            s1.compiler.context,
        ));
        self.block();
        let ghost before_end = *self;
        assert(!self.had_error ==> enclosing_frames(self.compiler.context) == enclosing_frames(
            s1.compiler.context,
        ));
        assert(ok ==> !self.had_error);
        let (function, upvalues) = match self.end_compiler() {
            Some(finished) => finished,
            None => {
                self.error("Cannot end compiler for the top-level script.");
                return;
            },
        };
        proof {
            if !self.had_error {
                assert(!before_end.had_error);
                assert(context_depth(before_end.compiler.context) == context_depth(
                    old(self).compiler.context,
                ) + 1);
                assert(context_depth(self.compiler.context) == context_depth(
                    old(self).compiler.context,
                ));
            }
        }
        let ghost s5 = *self;
        assert(ok ==> !self.had_error && chunk_of(*self) == chunk_of(s0)) by {
            if ok {
                let parent = *before_end.compiler.context.enclosing->0;
                lemma_frames_split(before_end.compiler.context, parent, s0.compiler.context);
            }
        }
        self.emit_closure(function, &upvalues);
        proof {
            if !self.had_error {
                let parent = *before_end.compiler.context.enclosing->0;
                lemma_frames_split(before_end.compiler.context, parent, s0.compiler.context);
                assert(chunk_of(s5) == chunk_of(s0));
                assert(keeps_frame(s0, s5));
                assert(keeps_frame(s0, *self));
                assert(keeps_code(s0, *self));
            }
        }
    }

    /// Parses a variable declaration after `var`, with an optional
    /// initialiser; a variable without one starts as `nil`.
    fn var_declaration(&mut self)
        requires
            old(self).wf(),
        ensures
            balanced(*old(self), *final(self)),
            evolves(*old(self), *final(self)),
            continues(*old(self), *final(self)),
            old(self).current.kind == TokenKind::Identifier ==> final(self).progress() < old(
                self,
            ).progress(),
            !final(self).had_error ==> final(self).previous.kind == TokenKind::Semicolon,
            !final(self).had_error && old(self).compiler.context.scope_depth == 0 ==> ends_with(
                *final(self),
                seq![Operation::DefineGlobal(chunk_of(*old(self)).constants_count as u8)],
            ),
            !final(self).had_error && old(self).compiler.context.scope_depth > 0
                ==> declared_local(*old(self), *final(self)),
        decreases old(self).progress(), 3nat,
    {
        let constant_index = match self.parse_variable("Expect variable name.") {
            Some(index) => index,
            None => {
                self.error("Reached constant limit.");
                return;
            },
        };
        if self.match_token(TokenKind::Equal) {
            self.expression();
        } else {
            self.emit_operation(Operation::Nil);
        }
        self.consume(TokenKind::Semicolon, "Expect ';' after value.");
        let ghost before = *self;
        self.define_variable(constant_index);
        proof {
            if before.compiler.context.scope_depth == 0 {
                lemma_emitted_ends(before, *self, seq![Operation::DefineGlobal(constant_index)]);
            }
        }
    }

    /// Parses one statement.
    fn statement(&mut self)
        requires
            old(self).wf(),
        ensures
            balanced(*old(self), *final(self)),
            evolves(*old(self), *final(self)),
            steps_forward(*old(self), *final(self)),
            continues(*old(self), *final(self)),
            starts_nothing(old(self).current.kind) ==> final(self).had_error,
        decreases old(self).progress(), 6nat,
    {
        if self.match_token(TokenKind::Print) {
            self.print_statement();
        } else if self.match_token(TokenKind::For) {
            self.for_statement();
        } else if self.match_token(TokenKind::If) {
            self.if_statement();
        } else if self.match_token(TokenKind::Return) {
            self.return_statement();
        } else if self.match_token(TokenKind::While) {
            self.while_statement();
        } else if self.match_token(TokenKind::LeftBrace) {
            self.begin_scope();
            self.block();
            self.end_scope();
        } else {
            self.expression_statement();
        }
    }

    /// Parses declarations up to the closing brace of a block.
    fn block(&mut self)
        requires
            old(self).wf(),
        ensures
            balanced(*old(self), *final(self)),
            evolves(*old(self), *final(self)),
            steps_forward(*old(self), *final(self)),
            continues(*old(self), *final(self)),
            !final(self).had_error ==> final(self).previous.kind == TokenKind::RightBrace,
            old(self).current.kind == TokenKind::RightBrace ==> reads_next(*old(self), *final(self))
                && final(self).compiler == old(self).compiler,
        decreases old(self).progress(), 9nat,
    {
        while !self.check_current_token(TokenKind::RightBrace) && !self.check_current_token(
            TokenKind::Eof,
        )
            invariant
                self.wf(),
                evolves(*old(self), *self),
                balanced(*old(self), *self),
                continues(*old(self), *self),
                old(self).current.kind == TokenKind::RightBrace ==> *self == *old(self),
            decreases self.progress(),
        {
            self.declaration();
        }
        self.consume(TokenKind::RightBrace, "Expect '}' after block.");
    }

    /// Parses a print statement after `print`.
    fn print_statement(&mut self)
        requires
            old(self).wf(),
        ensures
            balanced(*old(self), *final(self)),
            evolves(*old(self), *final(self)),
            steps_forward(*old(self), *final(self)),
            keeps_code(*old(self), *final(self)),
            keeps_frame(*old(self), *final(self)),
            continues(*old(self), *final(self)),
            ends_with(*final(self), seq![Operation::Print]),
            !final(self).had_error ==> final(self).previous.kind == TokenKind::Semicolon,
        decreases old(self).progress(), 3nat,
    {
        self.expression();
        self.consume(TokenKind::Semicolon, "Expect ';' after value.");
        let ghost before = *self;
        self.emit_operation(Operation::Print);
        proof {
            lemma_emitted_ends(before, *self, seq![Operation::Print]);
        }
    }

    /// Parses an if statement after `if`, with an optional else branch.
    fn if_statement(&mut self)
        requires
            old(self).wf(),
        ensures
            balanced(*old(self), *final(self)),
            evolves(*old(self), *final(self)),
            steps_forward(*old(self), *final(self)),
            continues(*old(self), *final(self)),
            !final(self).had_error ==> if_code(*old(self), *final(self)),
        decreases old(self).progress(), 7nat,
    {
        self.consume(TokenKind::LeftParen, "Expect '(' after 'if'.");
        self.expression();
        self.consume(TokenKind::RightParen, "Expect ')' after condition.");
        self.emit_operation(Operation::JumpIfFalse(JUMP_MAX_COUNT));
        let num_operations_if = self.current_chunk().code.len();
        self.emit_operation(Operation::Pop);
        let ghost s1 = *self;
        self.statement();
        let ghost s2 = *self;
        self.emit_operation(Operation::Jump(JUMP_MAX_COUNT));
        let num_operations_else = self.current_chunk().code.len();
        self.patch_jump(num_operations_if);
        self.emit_operation(Operation::Pop);
        let ghost s3 = *self;
        if self.match_token(TokenKind::Else) {
            self.statement();
        }
        let ghost s4 = *self;
        self.patch_jump(num_operations_else);
        proof {
            if !self.had_error {
                let i = num_operations_if - 1;
                let j = num_operations_else - 1;
                let code = chunk_of(*self).code@;
                assert(code[i] == Operation::JumpIfFalse((j - i) as u8));
                assert(code[i + 1] == Operation::Pop);
                assert(code[j] == Operation::Jump((code.len() - j - 1) as u8));
                assert(code[j + 1] == Operation::Pop);
            }
        }
    }

    /// Parses a return statement after `return`, which top-level code may
    /// not have and an initialiser may not give a value in.
    fn return_statement(&mut self)
        requires
            old(self).wf(),
        ensures
            balanced(*old(self), *final(self)),
            evolves(*old(self), *final(self)),
            continues(*old(self), *final(self)),
            old(self).compiler.context.function.kind == FunctionKind::Script ==> reported(
                *old(self),
                *final(self),
                old(self).previous,
                "Can't return from top-level code."@,
            ),
            old(self).compiler.context.function.kind != FunctionKind::Script ==> {
                &&& keeps_code(*old(self), *final(self))
                &&& keeps_frame(*old(self), *final(self))
                &&& steps_forward(*old(self), *final(self))
            },
            old(self).compiler.context.function.kind != FunctionKind::Script
                && old(self).current.kind == TokenKind::Semicolon ==> {
                &&& final(self).previous == old(self).current
                &&& ends_with(
                    *final(self),
                    seq![
                        if old(self).compiler.context.function.kind == FunctionKind::Initializer {
                            Operation::GetLocal(0)
                        } else {
                            Operation::Nil
                        },
                        Operation::Return,
                    ],
                )
            },
            old(self).compiler.context.function.kind != FunctionKind::Script
                && old(self).current.kind != TokenKind::Semicolon ==> {
                &&& ends_with(*final(self), seq![Operation::Return])
                &&& old(self).compiler.context.function.kind == FunctionKind::Initializer
                    ==> final(self).had_error
                &&& !final(self).had_error ==> final(self).previous.kind == TokenKind::Semicolon
            },
        decreases old(self).progress(), 3nat,
    {
        let current_function_kind = self.compiler.context.function.kind;
        if current_function_kind == FunctionKind::Script {
            self.error("Can't return from top-level code.");
            return;
        }
        if self.match_token(TokenKind::Semicolon) {
            let ghost before = *self;
            self.emit_return();
            proof {
                lemma_emitted_ends(
                    before,
                    *self,
                    seq![
                        if current_function_kind == FunctionKind::Initializer {
                            Operation::GetLocal(0)
                        } else {
                            Operation::Nil
                        },
                        Operation::Return,
                    ],
                );
            }
        } else {
            if current_function_kind == FunctionKind::Initializer {
                self.error("Can't return a value from an initializer.");
            }
            self.expression();
            self.consume(TokenKind::Semicolon, "Expect ';' after return value.");
            let ghost before = *self;
            self.emit_operation(Operation::Return);
            proof {
                lemma_emitted_ends(before, *self, seq![Operation::Return]);
            }
        }
    }

    /// Parses a while statement after `while`.
    fn while_statement(&mut self)
        requires
            old(self).wf(),
        ensures
            balanced(*old(self), *final(self)),
            evolves(*old(self), *final(self)),
            steps_forward(*old(self), *final(self)),
            continues(*old(self), *final(self)),
            !final(self).had_error ==> while_code(*old(self), *final(self)),
        decreases old(self).progress(), 7nat,
    {
        let num_operations_loop_start = self.current_chunk().code.len();
        self.consume(TokenKind::LeftParen, "Expect '(' after 'while'.");
        self.expression();
        self.consume(TokenKind::RightParen, "Expect ')' after condition.");
        self.emit_operation(Operation::JumpIfFalse(JUMP_MAX_COUNT));
        let num_operations_exit = self.current_chunk().code.len();
        self.emit_operation(Operation::Pop);
        self.statement();
        self.emit_loop(num_operations_loop_start);
        self.patch_jump(num_operations_exit);
        self.emit_operation(Operation::Pop);
        proof {
            if !self.had_error {
                let i = num_operations_exit - 1;
                let code = chunk_of(*self).code@;
                assert(code[i] == Operation::JumpIfFalse((code.len() - 2 - i) as u8));
                assert(code[i + 1] == Operation::Pop);
            }
        }
    }

    /// Parses a for statement after `for`: an optional initialiser,
    /// condition and increment, then the body, all in a scope of their own.
    #[verifier::spinoff_prover]
    #[verifier::rlimit(100)]
    fn for_statement(&mut self)
        requires
            old(self).wf(),
        ensures
            balanced(*old(self), *final(self)),
            evolves(*old(self), *final(self)),
            steps_forward(*old(self), *final(self)),
            continues(*old(self), *final(self)),
            !final(self).had_error ==> loops_back(*old(self), *final(self)),
        decreases old(self).progress(), 7nat,
    {
        let ghost s0 = *self;
        self.begin_scope();
        self.consume(TokenKind::LeftParen, "Expect '(' after 'for'.");
        if self.match_token(TokenKind::Semicolon) {
        } else if self.match_token(TokenKind::Var) {
            self.var_declaration();
        } else {
            self.expression_statement();
        }
        let mut num_operations_loop_start = self.current_chunk().code.len();
        let mut num_operations_exit: Option<usize> = None;
        if !self.match_token(TokenKind::Semicolon) {
            self.expression();
            self.consume(TokenKind::Semicolon, "Expect ';' after loop condition.");
            self.emit_operation(Operation::JumpIfFalse(JUMP_MAX_COUNT));
            num_operations_exit = Some(self.current_chunk().code.len());
            self.emit_operation(Operation::Pop);
        }
        if !self.match_token(TokenKind::RightParen) {
            self.emit_operation(Operation::Jump(JUMP_MAX_COUNT));
            let num_operations_jump = self.current_chunk().code.len();
            let num_operations_increment_start = self.current_chunk().code.len();
            self.expression();
            self.emit_operation(Operation::Pop);
            self.consume(TokenKind::RightParen, "Expect ')' after for clauses.");
            self.emit_loop(num_operations_loop_start);
            num_operations_loop_start = num_operations_increment_start;
            self.patch_jump(num_operations_jump);
        }
        self.statement();
        let ghost k: int = chunk_of(*self).code@.len() as int;
        let ghost back = (k - num_operations_loop_start) as u8;
        self.emit_loop(num_operations_loop_start);
        let ghost s8 = *self;
        if let Some(num_operations_exit) = num_operations_exit {
            self.patch_jump(num_operations_exit);
            self.emit_operation(Operation::Pop);
        }
        self.end_scope();
        proof {
            if !self.had_error {
                assert(chunk_of(s8).code@[k] == Operation::Loop(back));
                assert(chunk_of(*self).code@[k] == Operation::Loop(back));
            }
        }
    }

    /// Parses an expression statement, whose value is dropped.
    fn expression_statement(&mut self)
        requires
            old(self).wf(),
        ensures
            balanced(*old(self), *final(self)),
            evolves(*old(self), *final(self)),
            steps_forward(*old(self), *final(self)),
            keeps_code(*old(self), *final(self)),
            keeps_frame(*old(self), *final(self)),
            ends_with(*final(self), seq![Operation::Pop]),
            !final(self).had_error ==> final(self).previous.kind == TokenKind::Semicolon,
            prefix_rule(old(self).current.kind) == ParseFunctionKind::Nothing ==> final(self).had_error,
        decreases old(self).progress(), 3nat,
    {
        self.expression();
        self.consume(TokenKind::Semicolon, "Expect ';' after expression.");
        let ghost before = *self;
        self.emit_operation(Operation::Pop);
        proof {
            lemma_emitted_ends(before, *self, seq![Operation::Pop]);
        }
    }
}

impl<'source> Parser<'source> {
    /// Compiles the whole source as the top-level script. Gives the compiled
    /// script, or `None` when an error was reported, together with the error
    /// reports in the order they were made.
    pub fn compile(self) -> (result: (Option<FunctionObject>, Vec<String>))
        requires
            self.can_start(),
        ensures
            result.0 is Some <==> result.1@.len() == 0,
            keeps_reports(self.diagnostics@, result.1@),
            reports_are_errors(result.1@),
            result.0 matches Some(f) ==> f.chunk.wf(),
            context_depth(self.compiler.context) == 0 ==> (result.0 matches Some(f) ==> {
                &&& f.kind == outermost_kind(self.compiler.context)
                &&& f.name@ == self.compiler.context.function.name@
                &&& f.arity == self.compiler.context.function.arity
                &&& f.chunk.code@.len() >= 2
                &&& f.chunk.code@.last() == Operation::Return
                &&& f.chunk.code@[f.chunk.code@.len() - 2] == if f.kind
                    == FunctionKind::Initializer {
                    Operation::GetLocal(0)
                } else {
                    Operation::Nil
                }
            }),
            starts_nothing(scan_step(self.scanner.bytes(), self.scanner.position()).kind)
                ==> result.0 is None,
            scan_step(self.scanner.bytes(), self.scanner.position()).kind == TokenKind::Eof
                && self.diagnostics@.len() == 0 && context_depth(self.compiler.context) == 0 ==> (
            result.0 matches Some(f) && f.chunk.code@ == self.compiler.context.function.chunk.code@
                + seq![
                if self.compiler.context.function.kind == FunctionKind::Initializer {
                    Operation::GetLocal(0)
                } else {
                    Operation::Nil
                },
                Operation::Return,
            ]),
    {
        let ghost empty = scan_step(self.scanner.bytes(), self.scanner.position()).kind
            == TokenKind::Eof && self.diagnostics@.len() == 0 && context_depth(self.compiler.context)
            == 0;
        let ghost first = self;
        let ghost k0 = scan_step(self.scanner.bytes(), self.scanner.position()).kind;
        let ghost bad = starts_nothing(k0);
        let ghost start = self.diagnostics@;
        let ghost kind = outermost_kind(self.compiler.context);
        let ghost depth = context_depth(self.compiler.context);
        let ghost start_name = self.compiler.context.function.name@;
        let ghost start_arity = self.compiler.context.function.arity;
        let mut parser = self;
        parser.advance();
        loop
            invariant
                parser.wf(),
                keeps_reports(start, parser.diagnostics@),
                outermost_kind(parser.compiler.context) == kind,
                !parser.had_error ==> context_depth(parser.compiler.context) == depth,
                !parser.had_error ==> parser.compiler.context.function.name@ == start_name,
                !parser.had_error ==> parser.compiler.context.function.arity == start_arity,
                empty ==> parser.current.kind == TokenKind::Eof && !parser.had_error
                    && parser.compiler == first.compiler,
                bad == starts_nothing(k0),
                k0 == scan_step(first.scanner.bytes(), first.scanner.position()).kind,
                bad ==> parser.had_error || parser.current.kind == k0,
            ensures
                bad ==> parser.had_error,
                parser.wf(),
                keeps_reports(start, parser.diagnostics@),
                outermost_kind(parser.compiler.context) == kind,
                !parser.had_error ==> context_depth(parser.compiler.context) == depth,
                !parser.had_error ==> parser.compiler.context.function.name@ == start_name,
                !parser.had_error ==> parser.compiler.context.function.arity == start_arity,
                empty ==> parser.current.kind == TokenKind::Eof && !parser.had_error
                    && parser.compiler == first.compiler,
            decreases parser.progress(),
        {
            if parser.match_token(TokenKind::Eof) {
                break;
            }
            parser.declaration();
        }
        let had_error = parser.had_error;
        let function = match parser.end_compiler() {
            Some((f, _upvalues)) => f,
            None => parser.compiler.context.function,
        };
        let diagnostics = parser.diagnostics;
        if had_error {
            (None, diagnostics)
        } else {
            (Some(function), diagnostics)
        }
    }
}

} // verus!
