use minilang::ast::{
    Block, ComparativeOperator, Condition, Expression, Operator, Parameter, Program, Statement,
    TypeAnnotation,
};
use minilang::lexer::{Lexer, Token};
use minilang::parser::{ParseError, Parser};

fn parse(source: &str) -> Result<Program, ParseError> {
    let tokens = Lexer::tokenize(source).unwrap();
    Parser::new(tokens).parse()
}

#[test]
fn parse_variable_declaration_with_precedence() {
    let program = parse("this x = 3 + 5 * 4;").unwrap();
    assert_eq!(
        program,
        Program::Statements(vec![Statement::VariableDeclaration {
            identifier: "x".to_string(),
            value: Expression::ArithmeticExpression {
                left: Box::new(Expression::Integer(3)),
                operator: Operator::Add,
                right: Box::new(Expression::ArithmeticExpression {
                    left: Box::new(Expression::Integer(5)),
                    operator: Operator::Multiply,
                    right: Box::new(Expression::Integer(4)),
                }),
            },
        }])
    );
}

#[test]
fn parse_left_associative_sums() {
    let program = parse("this x = 1 - 2 + 3;").unwrap();
    assert_eq!(
        program,
        Program::Statements(vec![Statement::VariableDeclaration {
            identifier: "x".to_string(),
            value: Expression::ArithmeticExpression {
                left: Box::new(Expression::ArithmeticExpression {
                    left: Box::new(Expression::Integer(1)),
                    operator: Operator::Subtract,
                    right: Box::new(Expression::Integer(2)),
                }),
                operator: Operator::Add,
                right: Box::new(Expression::Integer(3)),
            },
        }])
    );
}

#[test]
fn parse_parenthesized_expression() {
    let program = parse("this x = (3 + 5) * 4;").unwrap();
    assert_eq!(
        program,
        Program::Statements(vec![Statement::VariableDeclaration {
            identifier: "x".to_string(),
            value: Expression::ArithmeticExpression {
                left: Box::new(Expression::ArithmeticExpression {
                    left: Box::new(Expression::Integer(3)),
                    operator: Operator::Add,
                    right: Box::new(Expression::Integer(5)),
                }),
                operator: Operator::Multiply,
                right: Box::new(Expression::Integer(4)),
            },
        }])
    );
}

#[test]
fn parse_function_declaration() {
    let program = parse("fn add(a: int, b: int) -> int { return a + b; };").unwrap();
    assert_eq!(
        program,
        Program::Statements(vec![Statement::FunctionDeclaration {
            name: "add".to_string(),
            parameters: vec![
                Parameter { name: "a".to_string(), type_annotation: TypeAnnotation::Int },
                Parameter { name: "b".to_string(), type_annotation: TypeAnnotation::Int },
            ],
            return_type: Some(TypeAnnotation::Int),
            body: Block {
                statements: vec![],
                return_expression: Some(Expression::ArithmeticExpression {
                    left: Box::new(Expression::Identifier("a".to_string())),
                    operator: Operator::Add,
                    right: Box::new(Expression::Identifier("b".to_string())),
                }),
            },
        }])
    );
}

#[test]
fn parse_if_else_statement() {
    let program = parse("if 1 == 2 { print(1); } else { print(2); };").unwrap();
    assert_eq!(
        program,
        Program::Statements(vec![Statement::IfStatement {
            condition: Condition::Comparison {
                left: Expression::Integer(1),
                operator: ComparativeOperator::Equal,
                right: Expression::Integer(2),
            },
            then_block: Block {
                statements: vec![Statement::Print(Expression::Integer(1))],
                return_expression: None,
            },
            else_block: Some(Block {
                statements: vec![Statement::Print(Expression::Integer(2))],
                return_expression: None,
            }),
        }])
    );
}

#[test]
fn parse_assignment_and_call_statement() {
    let program = parse("x = 5; f(x, 2);").unwrap();
    assert_eq!(
        program,
        Program::Statements(vec![
            Statement::Assignment {
                identifier: "x".to_string(),
                value: Expression::Integer(5),
            },
            Statement::FunctionCall(Expression::FunctionCall {
                name: "f".to_string(),
                arguments: vec![
                    Expression::Identifier("x".to_string()),
                    Expression::Integer(2),
                ],
            }),
        ])
    );
}

#[test]
fn parse_rejects_statement_with_bad_leading_token() {
    assert_eq!(parse("+ 1;"), Err(ParseError::InvalidStatement { position: 0 }));
}

#[test]
fn parse_rejects_missing_separator() {
    assert_eq!(
        parse("this x = 1"),
        Err(ParseError::ExpectedToken {
            expected: Token::SemiColon,
            position: 4,
            found: None,
        })
    );
}

#[test]
fn parse_rejects_bad_term() {
    assert_eq!(parse("this x = ;"), Err(ParseError::InvalidTerm { position: 3 }));
}

#[test]
fn parse_rejects_truncated_expression() {
    assert_eq!(parse("this x ="), Err(ParseError::UnexpectedEndOfInput { position: 3 }));
}

#[test]
fn parse_rejects_missing_identifier() {
    assert_eq!(parse("this 5 = 3;"), Err(ParseError::ExpectedIdentifier { position: 1 }));
}

#[test]
fn parse_rejects_bad_comparator() {
    assert_eq!(
        parse("if 1 = 2 { print(1); };"),
        Err(ParseError::UnsupportedComparator { position: 2 })
    );
}

#[test]
fn parse_empty_token_sequence() {
    assert_eq!(parse("").unwrap(), Program::Statements(vec![]));
}

#[test]
fn parse_trailing_comma_in_arguments_and_parameters() {
    let program = parse("fn f(a: int,) { print(a); }; f(1,);").unwrap();
    assert_eq!(
        program,
        Program::Statements(vec![
            Statement::FunctionDeclaration {
                name: "f".to_string(),
                parameters: vec![Parameter {
                    name: "a".to_string(),
                    type_annotation: TypeAnnotation::Int,
                }],
                return_type: None,
                body: Block {
                    statements: vec![Statement::Print(Expression::Identifier("a".to_string()))],
                    return_expression: None,
                },
            },
            Statement::FunctionCall(Expression::FunctionCall {
                name: "f".to_string(),
                arguments: vec![Expression::Integer(1)],
            }),
        ])
    );
}
