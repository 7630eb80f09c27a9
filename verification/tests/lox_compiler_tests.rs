use chef::lox::chunk::Operation;
use chef::lox::compiler::Parser;
use chef::lox::objects::{FunctionKind, FunctionObject};
use chef::lox::scanner::{number_lexemes, scans_cleanly_from_start};
use chef::value::Value;

use Operation::{
    Add, Call, Class, Closure, ClosureIndexByte, ClosureIsLocalByte, Constant, DefineGlobal,
    Equal, False, GetGlobal, GetLocal, GetUpvalue, Greater, Jump, JumpIfFalse, Less, Loop, Method,
    Multiply, Negate, Nil, Not, Pop, Print, Return, SetGlobal, SetLocal, True,
};

fn terminated(source: &str) -> String {
    let mut text = source.to_string();
    text.push('\0');
    text
}

fn literals(text: &str) -> Vec<(String, u64)> {
    number_lexemes(text)
        .into_iter()
        .map(|t| {
            let bits = t.parse::<f64>().unwrap().to_bits();
            (t, bits)
        })
        .collect()
}

fn compile(source: &str) -> (Option<FunctionObject>, Vec<String>) {
    let text = terminated(source);
    assert!(scans_cleanly_from_start(&text));
    let table = literals(&text);
    Parser::new(&text, table).compile()
}

fn script(source: &str) -> FunctionObject {
    let (function, diagnostics) = compile(source);
    assert_eq!(diagnostics, Vec::<String>::new());
    function.expect("the script compiles")
}

fn errors(source: &str) -> Vec<String> {
    let (function, diagnostics) = compile(source);
    assert!(function.is_none());
    diagnostics
}

fn number(value: &Option<Value>) -> f64 {
    match value {
        Some(Value::Number(bits)) => f64::from_bits(*bits),
        other => panic!("not a number: {:?}", other),
    }
}

fn text(value: &Option<Value>) -> String {
    match value {
        Some(Value::String(s)) => s.clone(),
        other => panic!("not a string: {:?}", other),
    }
}

#[test]
fn compiles_arithmetic_print() {
    let f = script("garnish 1 + 2 * 3;");
    assert_eq!(f.kind, FunctionKind::Script);
    assert_eq!(f.name, "");
    assert_eq!(
        f.chunk.code,
        vec![Constant(0), Constant(1), Constant(2), Multiply, Add, Print, Nil, Return]
    );
    assert_eq!(number(&f.chunk.constants[0]), 1.0);
    assert_eq!(number(&f.chunk.constants[1]), 2.0);
    assert_eq!(number(&f.chunk.constants[2]), 3.0);
    assert_eq!(f.chunk.constants_count, 3);
    assert_eq!(f.chunk.lines, vec![1; 8]);
}

#[test]
fn compiles_comparisons_and_negations() {
    let f = script("garnish !(1 >= 2) != -3 <= 4;");
    assert_eq!(
        f.chunk.code,
        vec![
            Constant(0),
            Constant(1),
            Less,
            Not,
            Not,
            Constant(2),
            Negate,
            Constant(3),
            Greater,
            Not,
            Equal,
            Not,
            Print,
            Nil,
            Return
        ]
    );
}

#[test]
fn compiles_literals_and_strings() {
    let f = script("garnish missing_ingredient; garnish delicious; garnish bland; garnish \"caf\u{e9}\";");
    assert_eq!(
        f.chunk.code,
        vec![Nil, Print, True, Print, False, Print, Constant(0), Print, Nil, Return]
    );
    assert_eq!(text(&f.chunk.constants[0]), "caf\u{e9}");
}

#[test]
fn compiles_globals() {
    let f = script("ingredient a = 1;\ningredient b;\na = a + 2;\ngarnish a;");
    assert_eq!(
        f.chunk.code,
        vec![
            Constant(1),
            DefineGlobal(0),
            Nil,
            DefineGlobal(2),
            GetGlobal(4),
            Constant(5),
            Add,
            SetGlobal(3),
            Pop,
            GetGlobal(6),
            Print,
            Nil,
            Return
        ]
    );
    assert_eq!(text(&f.chunk.constants[0]), "a");
    assert_eq!(text(&f.chunk.constants[2]), "b");
    assert_eq!(f.chunk.lines, vec![1, 1, 2, 2, 3, 3, 3, 3, 3, 4, 4, 4, 4]);
}

#[test]
fn compiles_locals_in_blocks() {
    let f = script("{ ingredient a = 1; { ingredient b = a; garnish b; } garnish a; }");
    assert_eq!(
        f.chunk.code,
        vec![
            Constant(0),
            GetLocal(1),
            GetLocal(2),
            Print,
            Pop,
            GetLocal(1),
            Print,
            Pop,
            Nil,
            Return
        ]
    );
}

#[test]
fn compiles_if_else_with_patched_jumps() {
    let f = script("taste (delicious) garnish 1; needs_more_salt garnish 2;");
    assert_eq!(
        f.chunk.code,
        vec![
            True,
            JumpIfFalse(4),
            Pop,
            Constant(0),
            Print,
            Jump(3),
            Pop,
            Constant(1),
            Print,
            Nil,
            Return
        ]
    );
}

#[test]
fn compiles_while_with_loop_back() {
    let f = script("mix_while (bland) garnish 1;");
    assert_eq!(
        f.chunk.code,
        vec![False, JumpIfFalse(4), Pop, Constant(0), Print, Loop(5), Pop, Nil, Return]
    );
}

#[test]
fn compiles_for_with_all_clauses() {
    let f = script("stir (ingredient i = 0; i < 2; i = i + 1) garnish i;");
    assert_eq!(
        f.chunk.code,
        vec![
            Constant(0),
            GetLocal(1),
            Constant(1),
            Less,
            JumpIfFalse(11),
            Pop,
            Jump(6),
            GetLocal(1),
            Constant(2),
            Add,
            SetLocal(1),
            Pop,
            Loop(11),
            GetLocal(1),
            Print,
            Loop(8),
            Pop,
            Pop,
            Nil,
            Return
        ]
    );
}

#[test]
fn compiles_and_or() {
    let f = script("garnish delicious pairs_with bland alternatively missing_ingredient;");
    assert_eq!(
        f.chunk.code,
        vec![
            True,
            JumpIfFalse(2),
            Pop,
            False,
            JumpIfFalse(1),
            Jump(2),
            Pop,
            Nil,
            Print,
            Nil,
            Return
        ]
    );
}

#[test]
fn compiles_functions_and_calls() {
    let f = script("recipe add(a, b) { plate_up a + b; }\ngarnish add(1, 2);");
    assert_eq!(
        f.chunk.code,
        vec![
            Closure(1),
            DefineGlobal(0),
            GetGlobal(2),
            Constant(3),
            Constant(4),
            Call(2),
            Print,
            Nil,
            Return
        ]
    );
    match &f.chunk.constants[1] {
        Some(Value::FunctionObject(add)) => {
            assert_eq!(add.name, "add");
            assert_eq!(add.kind, FunctionKind::Function);
            assert_eq!(add.arity, 2);
            assert_eq!(add.upvalue_count, 0);
            assert_eq!(
                add.chunk.code,
                vec![GetLocal(1), GetLocal(2), Add, Return, Nil, Return]
            );
        }
        other => panic!("not a function: {:?}", other),
    }
}

#[test]
fn compiles_captured_variables() {
    let f = script("recipe outer() { ingredient x = 1; recipe inner() { plate_up x; } plate_up inner; }");
    let outer = match &f.chunk.constants[1] {
        Some(Value::FunctionObject(outer)) => outer.clone(),
        other => panic!("not a function: {:?}", other),
    };
    assert_eq!(
        outer.chunk.code,
        vec![
            Constant(0),
            Closure(1),
            ClosureIsLocalByte(true),
            ClosureIndexByte(1),
            GetLocal(2),
            Return,
            Nil,
            Return
        ]
    );
    match &outer.chunk.constants[1] {
        Some(Value::FunctionObject(inner)) => {
            assert_eq!(inner.upvalue_count, 1);
            assert_eq!(inner.chunk.code, vec![GetUpvalue(0), Return, Nil, Return]);
        }
        other => panic!("not a function: {:?}", other),
    }
}

#[test]
fn compiles_classes_and_methods() {
    let f = script("dish A { init() {} greet() {} }");
    assert_eq!(
        f.chunk.code,
        vec![
            Class(0),
            DefineGlobal(0),
            GetGlobal(1),
            Closure(3),
            Method(2),
            Closure(5),
            Method(4),
            Pop,
            Nil,
            Return
        ]
    );
    match &f.chunk.constants[3] {
        Some(Value::FunctionObject(init)) => {
            assert_eq!(init.kind, FunctionKind::Initializer);
            assert_eq!(init.chunk.code, vec![GetLocal(0), Return]);
        }
        other => panic!("not a function: {:?}", other),
    }
    match &f.chunk.constants[5] {
        Some(Value::FunctionObject(greet)) => assert_eq!(greet.kind, FunctionKind::Method),
        other => panic!("not a function: {:?}", other),
    }
}

#[test]
fn reports_missing_expression() {
    assert_eq!(errors("garnish ;"), vec!["[line 1] Error at ';': Expect expression."]);
}

#[test]
fn reports_error_at_end() {
    assert_eq!(errors("garnish 1"), vec!["[line 1] Error at end: Expect ';' after value."]);
}

#[test]
fn reports_invalid_assignment_target() {
    assert_eq!(
        errors("1 + 2 = 3;"),
        vec!["[line 1] Error at '=': Invalid assignment target."]
    );
}

#[test]
fn reports_unterminated_string() {
    assert_eq!(
        errors("garnish \"abc"),
        vec!["[line 1] Error: Unterminated string."]
    );
}

#[test]
fn reports_return_at_top_level() {
    assert_eq!(
        errors("plate_up 1;"),
        vec!["[line 1] Error at 'plate_up': Can't return from top-level code."]
    );
}

#[test]
fn reports_return_value_from_initializer() {
    assert_eq!(
        errors("dish A { init() { plate_up 1; } }"),
        vec!["[line 1] Error at 'plate_up': Can't return a value from an initializer."]
    );
}

#[test]
fn reports_redeclared_local() {
    assert_eq!(
        errors("{ ingredient a = 1; ingredient a = 2; }"),
        vec!["[line 1] Error at 'a': Already a variable with this name in this scope."]
    );
}

#[test]
fn reports_local_in_own_initializer() {
    assert_eq!(
        errors("{ ingredient a = a; }"),
        vec!["[line 1] Error at 'a': Can't read local variable in its own initializer."]
    );
}

#[test]
fn reports_class_inheriting_from_itself() {
    assert_eq!(
        errors("dish A < A {}"),
        vec!["[line 1] Error at 'A': A class can't inherit from itself."]
    );
}

#[test]
fn reports_one_error_per_statement_and_recovers() {
    assert_eq!(
        errors("garnish ;\ngarnish ) ;\ningredient x = 1;\ngarnish (;"),
        vec![
            "[line 1] Error at ';': Expect expression.",
            "[line 2] Error at ')': Expect expression.",
            "[line 4] Error at ';': Expect expression."
        ]
    );
}

#[test]
fn reports_error_lines() {
    assert_eq!(
        errors("ingredient a = 1;\n\n\ningredient = 2;"),
        vec!["[line 4] Error at '=': Expect variable name."]
    );
}

#[test]
fn reports_number_without_value() {
    let text = terminated("garnish 12;");
    let parser = Parser::new(&text, Vec::new());
    let (function, diagnostics) = parser.compile();
    assert!(function.is_none());
    assert_eq!(
        diagnostics,
        vec!["[line 1] Error at '12': Could not cast lexeme to number"]
    );
}

#[test]
fn number_lexemes_in_order() {
    let text = terminated("ingredient a = 1.5; garnish a + 20 * 3.25; // 7\n");
    assert_eq!(number_lexemes(&text), vec!["1.5", "20", "3.25"]);
}

#[test]
fn scanning_check_finds_stray_characters() {
    assert!(scans_cleanly_from_start(&terminated("garnish 1; // #")));
    assert!(scans_cleanly_from_start(&terminated("garnish \"#\";")));
    assert!(!scans_cleanly_from_start(&terminated("garnish 1 # 2;")));
    assert!(!scans_cleanly_from_start(&terminated("@")));
}

#[test]
fn too_many_constants_is_reported() {
    let mut source = String::new();
    for i in 0..256 {
        source.push_str(&format!("garnish {};\n", i));
    }
    source.push_str("garnish 256;\n");
    assert_eq!(
        errors(&source),
        vec!["[line 257] Error at '256': Too many constants in one chunk."]
    );
}

#[test]
fn blank_source_compiles_to_a_bare_return() {
    let function = script("  // nothing here\n");
    assert_eq!(function.chunk.code, vec![Nil, Return]);
    assert_eq!(function.name, "");
    assert_eq!(function.arity, 0);
    assert_eq!(function.kind, FunctionKind::Script);
}

#[test]
fn source_starting_with_a_closing_parenthesis_fails() {
    let (function, diagnostics) = compile(")");
    assert!(function.is_none());
    assert_eq!(diagnostics, vec!["[line 1] Error at ')': Expect expression.".to_string()]);
}

#[test]
fn parser_accepts_a_source_without_its_end_mark() {
    let parser = Parser::new("x", Vec::new());
    assert!(!parser.had_error);
    assert!(parser.diagnostics.is_empty());
}
