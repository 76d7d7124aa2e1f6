use minilang::ast::{Expression, Operator, Program, Statement};
use minilang::lexer::Lexer;
use minilang::optimizer::Optimizer;
use minilang::parser::Parser;

fn parse(source: &str) -> Program {
    let tokens = Lexer::tokenize(source).unwrap();
    Parser::new(tokens).parse().unwrap()
}

fn declaration(identifier: &str, value: Expression) -> Program {
    Program::Statements(vec![Statement::VariableDeclaration {
        identifier: identifier.to_string(),
        value,
    }])
}

#[test]
fn precedence_folds_product_before_sum() {
    let optimized = Optimizer::optimize_ast(parse("this x = 3 + 5 * 4;"));
    assert_eq!(optimized, declaration("x", Expression::Integer(23)));
}

#[test]
fn precedence_respects_parentheses() {
    let optimized = Optimizer::optimize_ast(parse("this x = (3 + 5) * 4;"));
    assert_eq!(optimized, declaration("x", Expression::Integer(32)));
}

#[test]
fn left_associativity_of_subtraction() {
    let optimized = Optimizer::optimize_ast(parse("this x = 10 - 4 - 3;"));
    assert_eq!(optimized, declaration("x", Expression::Integer(3)));
}

#[test]
fn folds_subtraction_and_division() {
    let optimized = Optimizer::optimize_ast(parse("this x = 7 - 2;"));
    assert_eq!(optimized, declaration("x", Expression::Integer(5)));
    let optimized = Optimizer::optimize_ast(parse("this y = 6 / 2;"));
    assert_eq!(
        optimized,
        Program::Statements(vec![Statement::VariableDeclaration {
            identifier: "y".to_string(),
            value: Expression::Integer(3),
        }])
    );
}

#[test]
fn additive_identity_folds_to_bare_identifier() {
    let y = || Box::new(Expression::Identifier("y".to_string()));
    let zero = || Box::new(Expression::Integer(0));
    let left = Expression::ArithmeticExpression {
        left: zero(),
        operator: Operator::Add,
        right: y(),
    };
    let right = Expression::ArithmeticExpression {
        left: y(),
        operator: Operator::Add,
        right: zero(),
    };
    assert_eq!(
        Optimizer::constant_fold(&left),
        Expression::Identifier("y".to_string())
    );
    assert_eq!(
        Optimizer::constant_fold(&right),
        Expression::Identifier("y".to_string())
    );
}

#[test]
fn multiplicative_identity_folds_to_bare_identifier() {
    let y = || Box::new(Expression::Identifier("y".to_string()));
    let one = || Box::new(Expression::Integer(1));
    let left = Expression::ArithmeticExpression {
        left: one(),
        operator: Operator::Multiply,
        right: y(),
    };
    let right = Expression::ArithmeticExpression {
        left: y(),
        operator: Operator::Multiply,
        right: one(),
    };
    assert_eq!(
        Optimizer::constant_fold(&left),
        Expression::Identifier("y".to_string())
    );
    assert_eq!(
        Optimizer::constant_fold(&right),
        Expression::Identifier("y".to_string())
    );
}

#[test]
fn multiplication_by_zero_folds_to_zero() {
    let y = || Box::new(Expression::Identifier("y".to_string()));
    let zero = || Box::new(Expression::Integer(0));
    let left = Expression::ArithmeticExpression {
        left: zero(),
        operator: Operator::Multiply,
        right: y(),
    };
    let right = Expression::ArithmeticExpression {
        left: y(),
        operator: Operator::Multiply,
        right: zero(),
    };
    assert_eq!(Optimizer::constant_fold(&left), Expression::Integer(0));
    assert_eq!(Optimizer::constant_fold(&right), Expression::Integer(0));
}

#[test]
fn division_by_literal_zero_is_not_folded() {
    let division = Expression::ArithmeticExpression {
        left: Box::new(Expression::Integer(5)),
        operator: Operator::Divide,
        right: Box::new(Expression::Integer(0)),
    };
    assert_eq!(Optimizer::constant_fold(&division), division);
}

#[test]
fn no_identity_rules_for_subtraction_or_division() {
    let y_minus_zero = Expression::ArithmeticExpression {
        left: Box::new(Expression::Identifier("y".to_string())),
        operator: Operator::Subtract,
        right: Box::new(Expression::Integer(0)),
    };
    assert_eq!(Optimizer::constant_fold(&y_minus_zero), y_minus_zero);
    let y_div_one = Expression::ArithmeticExpression {
        left: Box::new(Expression::Identifier("y".to_string())),
        operator: Operator::Divide,
        right: Box::new(Expression::Integer(1)),
    };
    assert_eq!(Optimizer::constant_fold(&y_div_one), y_div_one);
}

#[test]
fn call_arguments_are_not_folded() {
    let call = Expression::FunctionCall {
        name: "f".to_string(),
        arguments: vec![Expression::ArithmeticExpression {
            left: Box::new(Expression::Integer(1)),
            operator: Operator::Add,
            right: Box::new(Expression::Integer(2)),
        }],
    };
    assert_eq!(Optimizer::constant_fold(&call), call);
}
