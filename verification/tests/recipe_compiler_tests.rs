use chef::compiler::Compiler;
use chef::value::Value;

fn compile(source: &str) -> (Option<chef::chunk::Code>, Vec<String>) {
    Compiler::new(source, Vec::new()).compile()
}

#[test]
fn recipe_with_no_steps_returns_nil() {
    let (code, diagnostics) = compile("Recipe Steps\0");
    assert!(diagnostics.is_empty());
    let code = code.expect("compiles");
    assert_eq!(code.code, vec![20, 0, 20, 1, 6, 0]);
    assert_eq!(code.constants_count, 2);
    assert!(matches!(code.constants[0], Value::NativeFunction(0)));
    assert!(matches!(code.constants[1], Value::NativeFunction(1)));
}

#[test]
fn utensil_is_jumped_over_and_loaded() {
    let (code, diagnostics) = compile("Recipe Utensils whisk Steps\0");
    assert!(diagnostics.is_empty());
    let code = code.expect("compiles");
    assert_eq!(code.code, vec![20, 0, 20, 1, 22, 2, 0, 6, 0, 20, 2, 6, 0]);
    assert_eq!(code.constants_count, 3);
    match &code.constants[2] {
        Value::Function(f) => {
            assert_eq!(f.name, "whisk");
            assert_eq!(f.arity, 0);
            assert_eq!(f.ip_start, 7);
        }
        _ => panic!("the third constant is not a function"),
    }
}

#[test]
fn missing_steps_section_is_reported() {
    let (code, diagnostics) = compile("Recipe\0");
    assert!(code.is_none());
    assert_eq!(
        diagnostics,
        vec!["[line 1] Error at end of file: Expect 'Recipe' to contain 'Steps' section".to_string()]
    );
}

#[test]
fn missing_title_is_reported_once() {
    let (code, diagnostics) = compile("Steps\0");
    assert!(code.is_none());
    assert_eq!(diagnostics, vec!["[line 1] Error: Script must begin with 'Recipe'.".to_string()]);
}

#[test]
fn new_declares_the_native_functions() {
    let compiler = Compiler::new("Recipe Steps\0", Vec::new());
    assert_eq!(compiler.context.locals_count, 2);
    assert_eq!(compiler.context.locals[0], "time");
    assert_eq!(compiler.context.locals[1], "stir");
    assert!(!compiler.had_error);
}

#[test]
fn utensil_counts_its_parameters() {
    let (code, diagnostics) = compile("Recipe Utensils whisk with a, b and c Steps\0");
    assert!(diagnostics.is_empty());
    let code = code.expect("compiles");
    assert_eq!(code.code, vec![20, 0, 20, 1, 22, 2, 0, 6, 0, 20, 2, 6, 0]);
    match &code.constants[2] {
        Value::Function(f) => {
            assert_eq!(f.name, "whisk");
            assert_eq!(f.arity, 3);
            assert_eq!(f.ip_start, 7);
        }
        _ => panic!("the third constant is not a function"),
    }
}

#[test]
fn parameter_after_the_final_and_is_reported() {
    let (code, diagnostics) = compile("Recipe Utensils whisk with a and b, c Steps\0");
    assert!(code.is_none());
    assert_eq!(diagnostics, vec!["[line 1] Error at 'b': Invalid ',' after final argument.".to_string()]);
}

#[test]
fn compiler_accepts_a_source_without_its_end_mark() {
    let compiler = Compiler::new("Recipe", Vec::new());
    assert!(!compiler.had_error);
    assert_eq!(compiler.code.code, vec![20, 0, 20, 1]);
}
