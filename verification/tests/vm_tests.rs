use std::rc::Rc;

use chef::chunk::{Code, Opcode};
use chef::error::ChefError;
use chef::function::{Function, FunctionKind};
use chef::lox::compiler::Parser;
use chef::lox::scanner::{number_lexemes, scans_cleanly_from_start};
use chef::lox::vm::{InterpretResult, Step, Vm};
use chef::native_functions::{do_nothing, STIR_FUNCTION};
use chef::value::{ArithmeticOperation, Value};
use chef::vm::{Action, CallFrame, State};

fn combine(op: ArithmeticOperation, a: u64, b: u64) -> u64 {
    let (x, y) = (f64::from_bits(a), f64::from_bits(b));
    let r = match op {
        ArithmeticOperation::Add => x + y,
        ArithmeticOperation::Subtract => x - y,
        ArithmeticOperation::Multiply => x * y,
        ArithmeticOperation::Divide => x / y,
    };
    r.to_bits()
}

fn num(x: f64) -> Value {
    Value::Number(x.to_bits())
}

fn show(v: &Value) -> String {
    match v {
        Value::Nil => "nil".to_string(),
        Value::Number(bits) => format!("{}", f64::from_bits(*bits)),
        Value::Boolean(b) => format!("{}", b),
        Value::String(s) => s.clone(),
        Value::Function(f) => format!("<fn {}>", f.name),
        Value::NativeFunction(_) => "<native fn>".to_string(),
        Value::FunctionObject(f) => format!("<fn {}>", f.name),
    }
}

fn interpret_lox(source: &str) -> (Vec<String>, InterpretResult) {
    let mut text = source.to_string();
    text.push('\0');
    assert!(scans_cleanly_from_start(&text));
    let table: Vec<(String, u64)> = number_lexemes(&text)
        .into_iter()
        .map(|t| {
            let bits = t.parse::<f64>().unwrap().to_bits();
            (t, bits)
        })
        .collect();
    let (function, diagnostics) = Parser::new(&text, table).compile();
    let function = match function {
        Some(f) => f,
        None => {
            assert!(!diagnostics.is_empty());
            return (diagnostics, InterpretResult::CompileError);
        }
    };
    let chunk = &function.chunk;
    let mut vm = Vm::new();
    let mut printed = Vec::new();
    let mut offset = 0;
    loop {
        match vm.step(chunk, offset) {
            Step::Continue => offset += 1,
            Step::Print(v) => {
                printed.push(show(&v));
                offset += 1;
            }
            Step::Arithmetic(op, a, b) => {
                vm.push_number(combine(op, a, b));
                offset += 1;
            }
            Step::Finished(result) => return (printed, result),
        }
    }
}

fn runtime_error(result: InterpretResult) -> (usize, String) {
    match result {
        InterpretResult::RuntimeError(line, message) => (line, message),
        other => panic!("not a runtime error: {:?}", other),
    }
}

#[test]
fn lox_prints_arithmetic() {
    let (out, result) = interpret_lox("garnish 1 + 2 * 3;\ngarnish (1 + 2) * 3;\ngarnish 7 / 2 - 1;");
    assert!(matches!(result, InterpretResult::Success));
    assert_eq!(out, vec!["7", "9", "2.5"]);
}

#[test]
fn lox_negates_and_compares() {
    let (out, result) = interpret_lox("garnish -4; garnish 1 < 2; garnish 2 > 3; garnish 2 <= 2; garnish !missing_ingredient;");
    assert!(matches!(result, InterpretResult::Success));
    assert_eq!(out, vec!["-4", "true", "false", "true", "true"]);
}

#[test]
fn lox_compares_values() {
    let (out, _) = interpret_lox(
        "garnish \"a\" == \"a\"; garnish \"a\" != \"b\"; garnish missing_ingredient == bland; garnish 0 == -0; garnish delicious == delicious;",
    );
    assert_eq!(out, vec!["true", "true", "false", "true", "true"]);
}

#[test]
fn lox_globals_read_back_what_was_written() {
    let (out, result) = interpret_lox("ingredient a = 1;\na = a * 10;\ngarnish a;\ningredient a = \"again\";\ngarnish a;");
    assert!(matches!(result, InterpretResult::Success));
    assert_eq!(out, vec!["10", "again"]);
}

#[test]
fn lox_reports_negating_a_string() {
    let (out, result) = interpret_lox("garnish 1;\ngarnish -\"x\";");
    assert_eq!(out, vec!["1"]);
    assert_eq!(runtime_error(result), (2, "Operand must be a number.".to_string()));
}

#[test]
fn lox_reports_operand_errors() {
    let (_, add) = interpret_lox("garnish 1 + missing_ingredient;");
    assert_eq!(
        runtime_error(add),
        (1, "Operands must be two numbers or two strings.".to_string())
    );
    let (_, sub) = interpret_lox("garnish 1 - missing_ingredient;");
    assert_eq!(runtime_error(sub), (1, "Operands must be numbers.".to_string()));
    let (_, less) = interpret_lox("garnish 1 < \"b\";");
    assert_eq!(runtime_error(less), (1, "Operands must be numbers.".to_string()));
}

#[test]
fn lox_reports_undefined_global() {
    let (_, result) = interpret_lox("garnish x;");
    assert_eq!(
        runtime_error(result),
        (1, "No constant initialised with name 'x'.".to_string())
    );
}

#[test]
fn lox_reports_locals_outside_the_stack() {
    let (_, result) = interpret_lox("{ ingredient a = 3; garnish a; }");
    assert_eq!(
        runtime_error(result),
        (1, "No value at index '1' in stack.".to_string())
    );
}

#[test]
fn lox_reports_unsupported_jumps() {
    let (out, result) = interpret_lox("garnish 0;\ntaste (delicious) garnish 1;");
    assert_eq!(out, vec!["0"]);
    assert_eq!(runtime_error(result), (2, "Unsupported operation.".to_string()));
}

#[test]
fn lox_compile_errors_stop_before_running() {
    let (diagnostics, result) = interpret_lox("garnish ;");
    assert!(matches!(result, InterpretResult::CompileError));
    assert_eq!(diagnostics, vec!["[line 1] Error at ';': Expect expression."]);
}

#[test]
fn lox_machine_ends_early_without_return() {
    let mut vm = Vm::new();
    let chunk = chef::lox::chunk::Chunk::new();
    match vm.step(&chunk, 0) {
        Step::Finished(InterpretResult::RuntimeError(line, message)) => {
            assert_eq!(line, 0);
            assert_eq!(message, "Execution ended early.");
        }
        other => panic!("unexpected step: {:?}", other),
    }
}

enum Outcome {
    Done(Vec<String>),
    Failed(Vec<String>, ChefError),
}

fn run_recipe(code: Code) -> Outcome {
    let mut state = State::new(code);
    state
        .push_frame(CallFrame { name: String::new(), line: 0, stack_index: 0, continuation_ip: 0 })
        .unwrap();
    let mut printed = Vec::new();
    loop {
        match state.step() {
            Ok(Action::Continue) => {}
            Ok(Action::Print(v)) => printed.push(show(&v)),
            Ok(Action::Arithmetic(op, a, b)) => state.push(Value::Number(combine(op, a, b))).unwrap(),
            Ok(Action::CallNative(index, argc, first)) => {
                assert_eq!(index, STIR_FUNCTION);
                state.finish_native_call(do_nothing(argc, first)).unwrap();
            }
            Ok(Action::Finished) => return Outcome::Done(printed),
            Err(e) => return Outcome::Failed(printed, e),
        }
    }
}

fn op(code: &mut Code, opcode: Opcode, line: usize) {
    code.write(opcode.to_byte(), line);
}

#[test]
fn recipe_machine_prints_sum() {
    let mut code = Code::new();
    let a = code.add_constant(num(1.5)).unwrap();
    let b = code.add_constant(num(2.0)).unwrap();
    op(&mut code, Opcode::Constant, 1);
    code.write(a, 1);
    op(&mut code, Opcode::Constant, 1);
    code.write(b, 1);
    op(&mut code, Opcode::Add, 1);
    op(&mut code, Opcode::Print, 1);
    op(&mut code, Opcode::Nil, 2);
    op(&mut code, Opcode::Return, 2);
    match run_recipe(code) {
        Outcome::Done(out) => assert_eq!(out, vec!["3.5"]),
        Outcome::Failed(_, e) => panic!("failed: {:?}", e),
    }
}

#[test]
fn recipe_machine_jumps_over_false_branch() {
    let mut code = Code::new();
    op(&mut code, Opcode::False, 1);
    op(&mut code, Opcode::JumpIfFalse, 1);
    code.write(2, 1);
    code.write(0, 1);
    op(&mut code, Opcode::True, 1);
    op(&mut code, Opcode::Print, 1);
    op(&mut code, Opcode::Print, 1);
    op(&mut code, Opcode::Nil, 1);
    op(&mut code, Opcode::Return, 1);
    match run_recipe(code) {
        Outcome::Done(out) => assert_eq!(out, vec!["false"]),
        Outcome::Failed(_, e) => panic!("failed: {:?}", e),
    }
}

#[test]
fn recipe_machine_reports_negating_nil() {
    let mut code = Code::new();
    op(&mut code, Opcode::Nil, 1);
    op(&mut code, Opcode::Negate, 1);
    op(&mut code, Opcode::Return, 1);
    match run_recipe(code) {
        Outcome::Done(_) => panic!("negating nil succeeded"),
        Outcome::Failed(_, e) => assert!(matches!(e, ChefError::ValueNegationOperation)),
    }
}

#[test]
fn recipe_machine_calls_a_function() {
    let mut code = Code::new();
    let mut function = Function::new("twice".to_string(), FunctionKind::Function);
    function.arity = 1;
    function.ip_start = 9;
    let f = code.add_constant(Value::Function(Rc::new(function))).unwrap();
    let x = code.add_constant(num(21.0)).unwrap();
    op(&mut code, Opcode::Constant, 1);
    code.write(f, 1);
    op(&mut code, Opcode::Constant, 1);
    code.write(x, 1);
    op(&mut code, Opcode::Call, 1);
    code.write(1, 1);
    op(&mut code, Opcode::Print, 1);
    op(&mut code, Opcode::Nil, 1);
    op(&mut code, Opcode::Return, 1);
    op(&mut code, Opcode::GetLocal, 2);
    code.write(0, 2);
    code.write(0, 2);
    op(&mut code, Opcode::GetLocal, 2);
    code.write(0, 2);
    code.write(0, 2);
    op(&mut code, Opcode::Add, 2);
    op(&mut code, Opcode::Return, 2);
    match run_recipe(code) {
        Outcome::Done(out) => assert_eq!(out, vec!["42"]),
        Outcome::Failed(_, e) => panic!("failed: {:?}", e),
    }
}

#[test]
fn recipe_machine_checks_arity() {
    let mut code = Code::new();
    let mut function = Function::new("unary".to_string(), FunctionKind::Function);
    function.arity = 1;
    let f = code.add_constant(Value::Function(Rc::new(function))).unwrap();
    op(&mut code, Opcode::Constant, 1);
    code.write(f, 1);
    op(&mut code, Opcode::Call, 1);
    code.write(0, 1);
    op(&mut code, Opcode::Return, 1);
    match run_recipe(code) {
        Outcome::Done(_) => panic!("call with the wrong arity succeeded"),
        Outcome::Failed(_, e) => assert!(matches!(e, ChefError::FunctionArity(1, 0))),
    }
}

#[test]
fn recipe_machine_calls_native_function() {
    let mut code = Code::new();
    let f = code.add_constant(Value::NativeFunction(STIR_FUNCTION)).unwrap();
    op(&mut code, Opcode::Constant, 1);
    code.write(f, 1);
    op(&mut code, Opcode::Call, 1);
    code.write(0, 1);
    op(&mut code, Opcode::Print, 1);
    op(&mut code, Opcode::Nil, 1);
    op(&mut code, Opcode::Return, 1);
    match run_recipe(code) {
        Outcome::Done(out) => assert_eq!(out, vec!["nil"]),
        Outcome::Failed(_, e) => panic!("failed: {:?}", e),
    }
}

#[test]
fn recipe_machine_reports_non_callable() {
    let mut code = Code::new();
    op(&mut code, Opcode::True, 1);
    op(&mut code, Opcode::Call, 1);
    code.write(0, 1);
    op(&mut code, Opcode::Return, 1);
    match run_recipe(code) {
        Outcome::Done(_) => panic!("calling a boolean succeeded"),
        Outcome::Failed(_, e) => assert!(matches!(e, ChefError::InvalidCallee)),
    }
}

#[test]
fn recipe_stack_error_lists_calls_innermost_first() {
    let mut code = Code::new();
    op(&mut code, Opcode::Nil, 7);
    let mut state = State::new(code);
    state
        .push_frame(CallFrame { name: String::new(), line: 0, stack_index: 0, continuation_ip: 0 })
        .unwrap();
    state
        .push_frame(CallFrame { name: "whisk".to_string(), line: 0, stack_index: 0, continuation_ip: 0 })
        .unwrap();
    let trace = state.stack_error();
    assert_eq!(trace, vec![("whisk".to_string(), 7), (String::new(), 0)]);
}

#[test]
fn recipe_machine_checks_before_stepping() {
    let empty = State::new(Code::new());
    assert!(!empty.can_step());
    assert!(!empty.can_trace());

    let mut code = Code::new();
    op(&mut code, Opcode::Nil, 1);
    op(&mut code, Opcode::Return, 1);
    op(&mut code, Opcode::Add, 1);
    code.write(200, 1);
    let mut state = State::new(code);
    assert!(state.can_step());
    state
        .push_frame(CallFrame { name: String::new(), line: 0, stack_index: 0, continuation_ip: 0 })
        .unwrap();
    assert!(state.can_trace());
    assert!(matches!(state.step(), Ok(Action::Continue)));
    assert!(state.can_step());
    assert!(matches!(state.step(), Ok(Action::Finished)));
}

#[test]
fn recipe_machine_refuses_bad_instructions() {
    let mut code = Code::new();
    code.write(200, 1);
    assert!(!State::new(code).can_step());

    let mut code = Code::new();
    op(&mut code, Opcode::Add, 1);
    assert!(!State::new(code).can_step());

    let mut code = Code::new();
    op(&mut code, Opcode::Constant, 1);
    assert!(!State::new(code).can_step());

    let mut code = Code::new();
    op(&mut code, Opcode::DefineGlobal, 1);
    code.write(0, 1);
    assert!(!State::new(code).can_step());
}

#[test]
fn calling_with_the_wrong_number_of_arguments_fails() {
    let mut state = State::new(Code::new());
    let mut function = Function::new("whisk".to_string(), FunctionKind::Function);
    function.arity = 1;
    state.push(Value::Function(Rc::new(function))).unwrap();
    let result = state.call(0);
    assert!(matches!(result, Err(ChefError::FunctionArity(1, 0))));
}

#[test]
fn calling_a_non_function_fails() {
    let mut state = State::new(Code::new());
    state.push(Value::Nil).unwrap();
    assert!(matches!(state.call(0), Err(ChefError::InvalidCallee)));
}
