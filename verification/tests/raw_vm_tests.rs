use minilang::code_generator::OpCode;
use minilang::driver::{PipelineError, run_source};
use minilang::virtual_machine::{RuntimeError, VirtualMachine};

#[test]
fn return_with_no_active_frame_is_fatal() {
    let mut vm = VirtualMachine::new(vec![OpCode::RET]);
    assert_eq!(vm.run(), Err(RuntimeError::ReturnWithoutFrame));
}

#[test]
fn arithmetic_on_empty_stack_underflows() {
    let mut vm = VirtualMachine::new(vec![OpCode::PUSH(1), OpCode::ADD]);
    assert_eq!(vm.run(), Err(RuntimeError::StackUnderflow));
}

#[test]
fn print_on_empty_stack_underflows() {
    let mut vm = VirtualMachine::new(vec![OpCode::PRINT]);
    assert_eq!(vm.run(), Err(RuntimeError::StackUnderflow));
}

#[test]
fn enter_with_no_frame_is_fatal() {
    let mut vm = VirtualMachine::new(vec![OpCode::ENTER]);
    assert_eq!(vm.run(), Err(RuntimeError::NoFrameOnEnter));
}

#[test]
fn tail_call_with_no_frame_is_fatal() {
    let mut vm = VirtualMachine::new(vec![OpCode::TailCall("f".to_string())]);
    assert_eq!(vm.run(), Err(RuntimeError::NoFrameForTailCall));
}

#[test]
fn declaration_without_end_marker_is_fatal() {
    let mut vm = VirtualMachine::new(vec![OpCode::DECLARE("f".to_string()), OpCode::PUSH(1)]);
    assert_eq!(vm.run(), Err(RuntimeError::MissingFunctionEnd));
}

#[test]
fn declare_skips_inline_body_during_linear_flow() {
    // The body between DECLARE and EXIT is skipped, never executed by
    // falling through.
    let mut vm = VirtualMachine::new(vec![
        OpCode::DECLARE("f".to_string()),
        OpCode::ENTER,
        OpCode::PUSH(41),
        OpCode::PRINT,
        OpCode::RET,
        OpCode::EXIT,
        OpCode::PUSH(7),
        OpCode::PRINT,
    ]);
    assert_eq!(vm.run(), Ok(()));
    assert_eq!(vm.output(), &vec![7]);
}

#[test]
fn function_table_is_populated_lazily() {
    // A call that executes before its function's declaration marker has
    // been reached finds no entry.
    assert_eq!(
        run_source("f(); fn f() { print(1); };").unwrap_err(),
        PipelineError::Runtime(RuntimeError::UndefinedFunction { name: "f".to_string() })
    );
}

#[test]
fn jump_to_end_of_instructions_halts() {
    let mut vm = VirtualMachine::new(vec![OpCode::JUMP(1)]);
    assert_eq!(vm.run(), Ok(()));
    assert_eq!(vm.output(), &Vec::<i64>::new());
}
