use std::rc::Rc;

use chef::chunk::{Code, InstructionText, Opcode, Operand};
use chef::common::print_function;
use chef::error::ChefError;
use chef::function::{Function, FunctionKind};
use chef::lox::chunk::{Chunk, Operation, OperationText};
use chef::lox::objects::{FunctionKind as K2, FunctionObject};
use chef::lox::precedence::{ParseFunctionKind, Precedence};
use chef::lox::token::TokenKind;
use chef::native_functions::{declare_native_functions, do_nothing};
use chef::rules::{ParseFunctionKind as K, Precedence as P};
use chef::strings::simple_hash;
use chef::value::Value;

fn num(x: f64) -> Value {
    Value::Number(x.to_bits())
}

#[test]
fn print_function_names() {
    assert_eq!(print_function(""), "<script>");
    assert_eq!(print_function("whisk"), "<fn whisk>");
}

#[test]
fn fnv1a_known_values() {
    assert_eq!(simple_hash(""), 0xcbf29ce484222325);
    assert_eq!(simple_hash("a"), 0xaf63dc4c8601ec8c);
    assert_eq!(simple_hash("foobar"), 0x85944171f73967e8);
}

#[test]
fn error_messages() {
    assert_eq!(ChefError::Compile.message(), "Could not compile.");
    assert_eq!(ChefError::OutOfBounds.message(), "Index out of bounds.");
    assert_eq!(ChefError::StackOverflow.message(), "Stack overflow.");
    assert_eq!(ChefError::InvalidCallee.message(), "Can only call functions.");
    assert_eq!(
        ChefError::FunctionArity(2, 13).message(),
        "Expected 2 arguments but got 13."
    );
    assert_eq!(
        ChefError::FunctionArity(255, 0).message(),
        "Expected 255 arguments but got 0."
    );
    assert_eq!(ChefError::ValueNegationOperation.message(), "Operand must be a number.");
    assert_eq!(ChefError::ValueNumberOnlyOperation.message(), "Operands must be numbers.");
    assert_eq!(
        ChefError::ValueAddOperation.message(),
        "Operands must be two numbers or two strings."
    );
}

#[test]
fn precedence_next_and_rules() {
    assert_eq!(Precedence::Lowest.next(), Precedence::Assignment);
    assert_eq!(Precedence::Term.next(), Precedence::Factor);
    assert_eq!(Precedence::Call.next(), Precedence::Primary);
    let rule = Precedence::get_rule(TokenKind::Minus);
    assert_eq!(rule.prefix, ParseFunctionKind::Unary);
    assert_eq!(rule.infix, ParseFunctionKind::Binary);
    assert_eq!(rule.precedence, Precedence::Term);
    let rule = Precedence::get_rule(TokenKind::LeftParen);
    assert_eq!(rule.prefix, ParseFunctionKind::Grouping);
    assert_eq!(rule.infix, ParseFunctionKind::Call);
    assert_eq!(rule.precedence, Precedence::Call);
    let rule = Precedence::get_rule(TokenKind::Or);
    assert_eq!(rule.infix, ParseFunctionKind::Or);
    assert_eq!(rule.precedence, Precedence::Or);
    let rule = Precedence::get_rule(TokenKind::Semicolon);
    assert_eq!(rule.prefix, ParseFunctionKind::Nothing);
    assert_eq!(rule.infix, ParseFunctionKind::Nothing);
    assert_eq!(rule.precedence, Precedence::Lowest);
}

#[test]
fn rules_table_matches() {
    assert_eq!(P::get_rule(TokenKind::Number).prefix, K::Number);
    assert_eq!(P::get_rule(TokenKind::Identifier).prefix, K::Variable);
    assert_eq!(P::get_rule(TokenKind::EqualEqual).precedence, P::Equality);
    assert_eq!(P::get_rule(TokenKind::LessEqual).precedence, P::Comparison);
    assert_eq!(P::Or.next(), P::And);
}

#[test]
fn value_negate_and_comparisons() {
    let mut v = num(2.5);
    assert!(v.negate().is_ok());
    assert!(matches!(v, Value::Number(b) if f64::from_bits(b) == -2.5));
    let mut s = Value::String("x".to_string());
    assert_eq!(s.negate(), Err(ChefError::ValueNegationOperation));
    assert!(matches!(num(3.0).is_greater(num(2.0)), Ok(true)));
    assert!(matches!(num(-3.0).is_greater(num(-2.0)), Ok(false)));
    assert!(matches!(num(-0.0).is_less(num(0.0)), Ok(false)));
    assert!(matches!(num(f64::NAN).is_less(num(1.0)), Ok(false)));
    assert!(matches!(num(-1.0).is_less(num(0.0)), Ok(true)));
    assert!(matches!(num(1.0).is_less(num(f64::INFINITY)), Ok(true)));
    assert_eq!(Value::Nil.is_greater(num(1.0)), Err(ChefError::ValueNumberOnlyOperation));
}

#[test]
fn value_equality_and_truth() {
    assert!(num(0.0).is_equal(num(-0.0)));
    assert!(!num(f64::NAN).is_equal(num(f64::NAN)));
    assert!(Value::Nil.is_equal(Value::Nil));
    assert!(!Value::Nil.is_equal(Value::Boolean(false)));
    assert!(Value::String("ab".into()).is_equal(Value::String("ab".into())));
    assert!(Value::NativeFunction(1).is_equal(Value::NativeFunction(1)));
    let f = Rc::new(Function::new("bake".to_string(), FunctionKind::Function));
    assert!(Value::Function(f.clone()).is_equal(Value::Function(f.clone())));
    let g = Rc::new(Function::new("bake".to_string(), FunctionKind::Function));
    assert!(!Value::Function(f).is_equal(Value::Function(g)));
    assert!(Value::Nil.falsey());
    assert!(Value::Boolean(false).falsey());
    assert!(!Value::Boolean(true).falsey());
    assert!(!num(0.0).falsey());
}

#[test]
fn numeric_operands_are_checked() {
    assert_eq!(
        num(1.0).numeric_operands(&num(2.0), ChefError::ValueAddOperation),
        Ok((1.0f64.to_bits(), 2.0f64.to_bits()))
    );
    assert_eq!(
        num(1.0).numeric_operands(&Value::Nil, ChefError::ValueAddOperation),
        Err(ChefError::ValueAddOperation)
    );
}

#[test]
fn code_constants_fill_up() {
    let mut code = Code::new();
    for i in 0..256 {
        assert_eq!(code.add_constant(Value::Boolean(true)), Some(i as u8));
    }
    assert_eq!(code.add_constant(Value::Nil), None);
    assert_eq!(code.constants_count, 256);
}

#[test]
fn code_write_and_listing() {
    let mut code = Code::new();
    code.write(Opcode::Constant.to_byte(), 1);
    code.write(0, 1);
    code.write(Opcode::Jump.to_byte(), 2);
    code.write(0x34, 2);
    code.write(0x12, 2);
    code.write(Opcode::Return.to_byte(), 2);
    assert_eq!(
        code.instruction_at(0),
        InstructionText { opcode: Opcode::Constant, line: Some(1), operand: Operand::Constant(0), next_offset: 2 }
    );
    assert_eq!(
        code.instruction_at(2),
        InstructionText { opcode: Opcode::Jump, line: Some(2), operand: Operand::Jump(0x1234), next_offset: 5 }
    );
    assert_eq!(
        code.instruction_at(5),
        InstructionText { opcode: Opcode::Return, line: None, operand: Operand::NoOperand, next_offset: 6 }
    );
    assert_eq!(Opcode::from_byte(25), Some(Opcode::Function));
    assert_eq!(Opcode::from_byte(26), None);
}

#[test]
fn chunk_constants_and_lines() {
    let mut chunk = Chunk::new();
    chunk.write(Operation::Nil, 3);
    chunk.write(Operation::Return, 3);
    assert_eq!(chunk.add_constant(Value::Nil), Some(0));
    assert_eq!(chunk.add_constant(Value::Nil), Some(1));
    assert_eq!(chunk.shown_line(0), Some(3));
    assert_eq!(chunk.shown_line(1), None);
    for _ in 2..256 {
        assert!(chunk.add_constant(Value::Nil).is_some());
    }
    assert_eq!(chunk.add_constant(Value::Nil), None);
}

#[test]
fn natives_are_declared() {
    let natives = declare_native_functions();
    assert_eq!(natives[0], ("time", 0));
    assert_eq!(natives[1], ("stir", 1));
    assert!(matches!(do_nothing(3, 0), Value::Nil));
}

#[test]
fn negating_twice_gives_the_number_back() {
    for x in [0.0, -0.0, 1.5, -7.25, f64::INFINITY, f64::MAX] {
        let mut v = num(x);
        assert!(v.negate().is_ok());
        assert!(v.negate().is_ok());
        assert!(matches!(v, Value::Number(b) if b == x.to_bits()));
    }
}

#[test]
fn equality_is_symmetric() {
    let values = [
        Value::Nil,
        num(1.0),
        num(-0.0),
        num(0.0),
        Value::Boolean(true),
        Value::String("a".into()),
        Value::NativeFunction(0),
    ];
    for a in values.iter() {
        for b in values.iter() {
            assert_eq!(a.is_equal(b.clone()), b.is_equal(a.clone()));
        }
        assert!(a.is_equal(a.clone()));
    }
}

#[test]
fn function_objects_equal_only_themselves() {
    let f = Rc::new(FunctionObject::new("f".to_string(), K2::Function));
    let g = Rc::new(FunctionObject::new("f".to_string(), K2::Function));
    assert!(Value::FunctionObject(f.clone()).is_equal(Value::FunctionObject(f.clone())));
    assert!(!Value::FunctionObject(f).is_equal(Value::FunctionObject(g)));
}

#[test]
fn chunk_listing_forms() {
    let mut chunk = Chunk::new();
    chunk.write(Operation::Constant(3), 1);
    chunk.write(Operation::GetLocal(2), 1);
    chunk.write(Operation::JumpIfFalse(4), 2);
    chunk.write(Operation::Loop(5), 2);
    chunk.write(Operation::Print, 3);
    assert_eq!(chunk.listing(0), OperationText::Constant(3));
    assert_eq!(chunk.listing(1), OperationText::Slot(2));
    assert_eq!(chunk.listing(2), OperationText::Jump(4, false));
    assert_eq!(chunk.listing(3), OperationText::Jump(5, true));
    assert_eq!(chunk.listing(4), OperationText::Simple);
}

#[test]
fn code_listing_needs_whole_instructions() {
    let mut code = Code::new();
    code.write(Opcode::Jump.to_byte(), 1);
    code.write(1, 1);
    assert!(!code.can_list(0));
    code.write(0, 1);
    assert!(code.can_list(0));
    assert!(!code.can_list(3));
    code.write(99, 2);
    assert!(!code.can_list(3));
}
