use minilang::driver::{PipelineError, run_source};
use minilang::virtual_machine::RuntimeError;

#[test]
fn if_with_true_condition_prints_then_branch() {
    let vm = run_source("if 1 == 1 { print(1); } else { print(2); };").unwrap();
    assert_eq!(vm.output(), &vec![1]);
}

#[test]
fn if_with_false_condition_prints_else_branch() {
    let vm = run_source("if 1 == 2 { print(1); } else { print(2); };").unwrap();
    assert_eq!(vm.output(), &vec![2]);
}

#[test]
fn if_without_else_and_false_condition_continues_past() {
    let vm = run_source("if 1 == 2 { print(5); }; print(9);").unwrap();
    assert_eq!(vm.output(), &vec![9]);
}

#[test]
fn not_equal_comparator_at_runtime() {
    let vm = run_source("if 1 =! 2 { print(7); };").unwrap();
    assert_eq!(vm.output(), &vec![7]);
}

#[test]
fn arithmetic_on_variables_respects_precedence() {
    let vm = run_source("this a = 10; this b = 3; print(a - b * 2);").unwrap();
    assert_eq!(vm.output(), &vec![4]);
}

#[test]
fn division_truncates_toward_zero() {
    let vm = run_source("this a = 0 - 7; this b = 2; print(a / b);").unwrap();
    assert_eq!(vm.output(), &vec![-3]);
}

#[test]
fn function_call_and_return_value() {
    let vm = run_source("fn add(a: int, b: int) -> int { return a + b; }; print(add(2, 3));")
        .unwrap();
    assert_eq!(vm.output(), &vec![5]);
    assert_eq!(vm.frame_depth(), 0);
}

#[test]
fn tail_recursive_countdown_runs_to_completion() {
    let source = "fn countdown(n: int) -> int \
                  { if n == 0 { return 0; }; return countdown(n - 1); }; \
                  print(countdown(50000));";
    let vm = run_source(source).unwrap();
    assert_eq!(vm.output(), &vec![0]);
    assert_eq!(vm.frame_depth(), 0);
}

#[test]
fn non_tail_recursion_unwinds_to_depth_zero() {
    let source = "fn down(n: int) -> int \
                  { if n == 0 { return 0; }; this r = down(n - 1); return r; }; \
                  print(down(200));";
    let vm = run_source(source).unwrap();
    assert_eq!(vm.output(), &vec![0]);
    assert_eq!(vm.frame_depth(), 0);
}

#[test]
fn global_read_shadows_local_of_same_name() {
    // Stores inside a call go to the frame, but loads read the global table
    // first: the function's local `x` never shows through.
    let source = "this x = 1; \
                  fn f() -> int { x = 99; return x; }; \
                  print(f());";
    let vm = run_source(source).unwrap();
    assert_eq!(vm.output(), &vec![1]);
    assert_eq!(vm.get_variable("x"), Some(1));
}

#[test]
fn local_is_read_when_no_global_of_that_name() {
    let source = "fn f(a: int) -> int { return a; }; print(f(42));";
    let vm = run_source(source).unwrap();
    assert_eq!(vm.output(), &vec![42]);
    assert_eq!(vm.get_variable("a"), None);
}

#[test]
fn division_by_literal_zero_is_fatal_at_runtime() {
    assert_eq!(
        run_source("print(5 / 0);").unwrap_err(),
        PipelineError::Runtime(RuntimeError::DivisionByZero)
    );
}

#[test]
fn division_by_variable_zero_is_fatal_at_runtime() {
    assert_eq!(
        run_source("this z = 0; print(5 / z);").unwrap_err(),
        PipelineError::Runtime(RuntimeError::DivisionByZero)
    );
}

#[test]
fn load_of_undeclared_variable_is_fatal() {
    assert_eq!(
        run_source("print(nope);").unwrap_err(),
        PipelineError::Runtime(RuntimeError::UndefinedVariable { name: "nope".to_string() })
    );
}

#[test]
fn call_of_undeclared_function_is_fatal() {
    assert_eq!(
        run_source("ghost();").unwrap_err(),
        PipelineError::Runtime(RuntimeError::UndefinedFunction { name: "ghost".to_string() })
    );
}

#[test]
fn same_source_twice_gives_identical_output_and_globals() {
    let source = "this x = 2; this y = x * 3; \
                  fn twice(a: int) -> int { return a + a; }; \
                  print(twice(y)); print(x); x = x + 1; print(x);";
    let first = run_source(source).unwrap();
    let second = run_source(source).unwrap();
    assert_eq!(first.output(), second.output());
    assert_eq!(first.get_variable("x"), second.get_variable("x"));
    assert_eq!(first.get_variable("y"), second.get_variable("y"));
    assert_eq!(first.output(), &vec![12, 2, 3]);
    assert_eq!(first.get_variable("x"), Some(3));
    assert_eq!(first.get_variable("y"), Some(6));
}

#[test]
fn print_of_folded_negative_result() {
    let vm = run_source("print(2 - 5);").unwrap();
    assert_eq!(vm.output(), &vec![-3]);
}

#[test]
fn assignment_outside_function_writes_global() {
    let vm = run_source("this x = 1; x = 5; print(x);").unwrap();
    assert_eq!(vm.output(), &vec![5]);
    assert_eq!(vm.get_variable("x"), Some(5));
}

#[test]
fn lex_error_surfaces_through_pipeline() {
    assert!(matches!(
        run_source("this x = #;").unwrap_err(),
        PipelineError::Lex(_)
    ));
}

#[test]
fn parse_error_surfaces_through_pipeline() {
    assert!(matches!(
        run_source("this x = ;").unwrap_err(),
        PipelineError::Parse(_)
    ));
}
