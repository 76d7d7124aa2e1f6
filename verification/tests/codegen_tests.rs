use minilang::code_generator::{CodeGenerator, OpCode};
use minilang::lexer::Lexer;
use minilang::optimizer::Optimizer;
use minilang::parser::Parser;

fn generate(source: &str) -> Vec<OpCode> {
    let tokens = Lexer::tokenize(source).unwrap();
    let program = Parser::new(tokens).parse().unwrap();
    let optimized = Optimizer::optimize_ast(program);
    CodeGenerator::new().generate(optimized).unwrap()
}

#[test]
fn generate_store_after_expression() {
    assert_eq!(
        generate("this x = 1 + 2;"),
        vec![OpCode::PUSH(3), OpCode::STORE("x".to_string())]
    );
}

#[test]
fn generate_operands_before_operator() {
    assert_eq!(
        generate("this a = 1; print(a - 2);"),
        vec![
            OpCode::PUSH(1),
            OpCode::STORE("a".to_string()),
            OpCode::LOAD("a".to_string()),
            OpCode::PUSH(2),
            OpCode::SUB,
            OpCode::PRINT,
        ]
    );
}

#[test]
fn generate_if_else_with_resolved_jumps() {
    assert_eq!(
        generate("if 1 == 1 { print(1); } else { print(2); };"),
        vec![
            OpCode::PUSH(1),
            OpCode::PUSH(1),
            OpCode::EQUAL,
            OpCode::JmpIfFalse(7),
            OpCode::PUSH(1),
            OpCode::PRINT,
            OpCode::JUMP(9),
            OpCode::PUSH(2),
            OpCode::PRINT,
        ]
    );
}

#[test]
fn generate_if_without_else_jumps_to_end() {
    assert_eq!(
        generate("if 1 =! 2 { print(1); };"),
        vec![
            OpCode::PUSH(1),
            OpCode::PUSH(2),
            OpCode::NotEqual,
            OpCode::JmpIfFalse(7),
            OpCode::PUSH(1),
            OpCode::PRINT,
            OpCode::JUMP(7),
        ]
    );
}

#[test]
fn generate_function_with_parameters_stored_in_reverse() {
    assert_eq!(
        generate("fn sub(a: int, b: int) -> int { return a - b; };"),
        vec![
            OpCode::DECLARE("sub".to_string()),
            OpCode::ENTER,
            OpCode::STORE("b".to_string()),
            OpCode::STORE("a".to_string()),
            OpCode::LOAD("a".to_string()),
            OpCode::LOAD("b".to_string()),
            OpCode::SUB,
            OpCode::RET,
            OpCode::EXIT,
        ]
    );
}

#[test]
fn generate_function_without_return_gets_explicit_return() {
    assert_eq!(
        generate("fn hello() { print(1); };"),
        vec![
            OpCode::DECLARE("hello".to_string()),
            OpCode::ENTER,
            OpCode::PUSH(1),
            OpCode::PRINT,
            OpCode::RET,
            OpCode::EXIT,
        ]
    );
}

#[test]
fn generate_returned_call_becomes_tail_call() {
    assert_eq!(
        generate("fn loopy(n: int) -> int { return loopy(n - 1); };"),
        vec![
            OpCode::DECLARE("loopy".to_string()),
            OpCode::ENTER,
            OpCode::STORE("n".to_string()),
            OpCode::LOAD("n".to_string()),
            OpCode::PUSH(1),
            OpCode::SUB,
            OpCode::TailCall("loopy".to_string()),
            OpCode::RET,
            OpCode::EXIT,
        ]
    );
}

#[test]
fn generate_call_arguments_left_to_right() {
    assert_eq!(
        generate("f(1, 2);"),
        vec![
            OpCode::PUSH(1),
            OpCode::PUSH(2),
            OpCode::CALL("f".to_string()),
        ]
    );
}
