//! The parser: recursive descent with one-token and two-token lookahead and
//! precedence climbing for arithmetic expressions, producing a `Program` or
//! a structured parse error. The spec functions `spec_parse_*` mirror the
//! grammar exactly over `(tokens, position)` pairs, and every executable
//! method is proved to return precisely what its spec function states.

use vstd::prelude::*;

pub use crate::ast::{
    Block, ComparativeOperator, Condition, Expression, Operator, Parameter, Program, Statement,
    TypeAnnotation,
};

use crate::ast::{
    BlockV, CondV, ExprV, ParamV, StmtV, block_view, cond_view, expr_view, exprs_view,
    lemma_exprs_view_push, lemma_params_view_push, lemma_stmts_view_push, param_view, params_view,
    program_view, stmt_view, stmts_view,
};
use crate::lexer::{Token, TokenV, clone_token, token_eq, token_view, tokens_view};

verus! {

/// A parse failure: what was expected, where, and what stood there.
#[derive(Debug, PartialEq)]
pub enum ParseError {
    /// A specific token was expected; `found` is `None` at the end of input.
    ExpectedToken { expected: Token, position: usize, found: Option<Token> },
    /// A statement began with a token no statement form starts with.
    InvalidStatement { position: usize },
    /// An identifier was expected.
    ExpectedIdentifier { position: usize },
    /// A term began with a token no term starts with.
    InvalidTerm { position: usize },
    /// The input ended where a term was expected.
    UnexpectedEndOfInput { position: usize },
    /// A comparator (`==` or `=!`) was expected in a condition.
    UnsupportedComparator { position: usize },
}

/// Ghost mirror of `ParseError`.
pub enum ParseErrV {
    ExpectedToken { expected: TokenV, position: usize, found: Option<TokenV> },
    InvalidStatement { position: usize },
    ExpectedIdentifier { position: usize },
    InvalidTerm { position: usize },
    UnexpectedEndOfInput { position: usize },
    UnsupportedComparator { position: usize },
}

/// The view of a parse error.
pub open spec fn perr_view(e: ParseError) -> ParseErrV {
    match e {
        ParseError::ExpectedToken { expected, position, found } => ParseErrV::ExpectedToken {
            expected: token_view(expected),
            position,
            found: match found {
                Some(t) => Some(token_view(t)),
                None => None,
            },
        },
        ParseError::InvalidStatement { position } => ParseErrV::InvalidStatement { position },
        ParseError::ExpectedIdentifier { position } => ParseErrV::ExpectedIdentifier { position },
        ParseError::InvalidTerm { position } => ParseErrV::InvalidTerm { position },
        ParseError::UnexpectedEndOfInput { position } => ParseErrV::UnexpectedEndOfInput {
            position,
        },
        ParseError::UnsupportedComparator { position } => ParseErrV::UnsupportedComparator {
            position,
        },
    }
}

/// The token at `pos`, if any.
pub open spec fn spec_peek(toks: Seq<TokenV>, pos: int) -> Option<TokenV> {
    if 0 <= pos < toks.len() {
        Some(toks[pos])
    } else {
        None
    }
}

/// The token after the one at `pos`, if any.
pub open spec fn spec_lookahead(toks: Seq<TokenV>, pos: int) -> Option<TokenV> {
    spec_peek(toks, pos + 1)
}

/// The arithmetic operator at `pos`, if the token there is one.
pub open spec fn spec_peek_operator(toks: Seq<TokenV>, pos: int) -> Option<Operator> {
    match spec_peek(toks, pos) {
        Some(TokenV::Plus) => Some(Operator::Add),
        Some(TokenV::Minus) => Some(Operator::Subtract),
        Some(TokenV::Multiply) => Some(Operator::Multiply),
        Some(TokenV::Divide) => Some(Operator::Divide),
        _ => None,
    }
}

/// Binding strength of an operator: `*` and `/` bind tighter than `+` and
/// `-`.
pub open spec fn op_precedence(op: Operator) -> u8 {
    match op {
        Operator::Multiply => 2,
        Operator::Divide => 2,
        Operator::Add => 1,
        Operator::Subtract => 1,
    }
}

/// Consuming one expected token: the position after it on success; on a
/// mismatch or at the end of input the position is unchanged.
pub open spec fn spec_expect(toks: Seq<TokenV>, pos: int, expected: TokenV) -> (Result<
    (),
    ParseErrV,
>, int) {
    match spec_peek(toks, pos) {
        Some(found) => if found == expected {
            (Ok(()), pos + 1)
        } else {
            (
                Err(
                    ParseErrV::ExpectedToken {
                        expected,
                        position: pos as usize,
                        found: Some(found),
                    },
                ),
                pos,
            )
        },
        None => (
            Err(ParseErrV::ExpectedToken { expected, position: pos as usize, found: None }),
            pos,
        ),
    }
}

/// Consuming one identifier and yielding its name.
pub open spec fn spec_get_identifier(toks: Seq<TokenV>, pos: int) -> (Result<
    Seq<char>,
    ParseErrV,
>, int) {
    match spec_peek(toks, pos) {
        Some(TokenV::Identifier(name)) => (Ok(name), pos + 1),
        _ => (Err(ParseErrV::ExpectedIdentifier { position: pos as usize }), pos),
    }
}

/// One term: an integer literal, an identifier, a function call, or a
/// parenthesized expression.
pub open spec fn spec_parse_term(toks: Seq<TokenV>, pos: int) -> (Result<ExprV, ParseErrV>, int)
    decreases toks.len() - pos, 4int,
    when 0 <= pos <= toks.len()
{
    match spec_peek(toks, pos) {
        None => (Err(ParseErrV::UnexpectedEndOfInput { position: pos as usize }), pos),
        Some(t) => match t {
            TokenV::Integer(value) => (Ok(ExprV::Integer(value)), pos + 1),
            TokenV::Identifier(name) => if spec_lookahead(toks, pos) == Some(TokenV::LeftParen) {
                spec_parse_function_call_expression(toks, pos)
            } else {
                (Ok(ExprV::Identifier(name)), pos + 1)
            },
            TokenV::LeftParen => {
                let (r1, p1) = spec_parse_expression(toks, pos + 1);
                match r1 {
                    Err(e) => (Err(e), p1),
                    Ok(inner) => {
                        let (r2, p2) = spec_expect(toks, p1, TokenV::RightParen);
                        match r2 {
                            Err(e) => (Err(e), p2),
                            Ok(_) => (Ok(inner), p2),
                        }
                    },
                }
            },
            _ => (Err(ParseErrV::InvalidTerm { position: pos as usize }), pos),
        },
    }
}

/// A call expression: a name, then a parenthesized argument list.
pub open spec fn spec_parse_function_call_expression(toks: Seq<TokenV>, pos: int) -> (Result<
    ExprV,
    ParseErrV,
>, int)
    decreases toks.len() - pos, 3int,
    when 0 <= pos <= toks.len()
{
    let (r1, p1) = spec_get_identifier(toks, pos);
    match r1 {
        Err(e) => (Err(e), p1),
        Ok(name) => {
            let (r2, p2) = spec_expect(toks, p1, TokenV::LeftParen);
            match r2 {
                Err(e) => (Err(e), p2),
                Ok(_) => {
                    let (r3, p3) = spec_parse_argument_list(toks, p2);
                    match r3 {
                        Err(e) => (Err(e), p3),
                        Ok(arguments) => {
                            let (r4, p4) = spec_expect(toks, p3, TokenV::RightParen);
                            match r4 {
                                Err(e) => (Err(e), p4),
                                Ok(_) => (Ok(ExprV::FunctionCall { name, arguments }), p4),
                            }
                        },
                    }
                },
            }
        },
    }
}

/// A comma-separated argument list, ending before a right parenthesis or at
/// the first expression not followed by a comma.
pub open spec fn spec_parse_argument_list(toks: Seq<TokenV>, pos: int) -> (Result<
    Seq<ExprV>,
    ParseErrV,
>, int)
    decreases toks.len() - pos, 6int,
    when 0 <= pos <= toks.len()
{
    match spec_peek(toks, pos) {
        None => (Ok(Seq::empty()), pos),
        Some(t) => if t == TokenV::RightParen {
            (Ok(Seq::empty()), pos)
        } else {
            let (r1, p1) = spec_parse_expression(toks, pos);
            match r1 {
                Err(e) => (Err(e), p1),
                Ok(first) => if spec_peek(toks, p1) == Some(TokenV::Comma) {
                    // An expression consumes at least one token, so the list
                    // shrinks; the bound check only serves termination.
                    if pos < p1 + 1 <= toks.len() {
                        let (r2, p2) = spec_parse_argument_list(toks, p1 + 1);
                        match r2 {
                            Err(e) => (Err(e), p2),
                            Ok(rest) => (Ok(seq![first] + rest), p2),
                        }
                    } else {
                        arbitrary()
                    }
                } else {
                    (Ok(seq![first]), p1)
                },
            }
        },
    }
}

/// One expression: a term, then, if an operator follows, the precedence
/// climb starting from that term.
pub open spec fn spec_parse_expression(toks: Seq<TokenV>, pos: int) -> (Result<
    ExprV,
    ParseErrV,
>, int)
    decreases toks.len() - pos, 5int,
    when 0 <= pos <= toks.len()
{
    let (r1, p1) = spec_parse_term(toks, pos);
    match r1 {
        Err(e) => (Err(e), p1),
        Ok(left) => match spec_peek_operator(toks, p1) {
            Some(_) => {
                // A term consumes at least one token; the bound check only
                // serves termination.
                if pos < p1 <= toks.len() {
                    spec_parse_ewp(toks, p1, 0u8, left)
                } else {
                    arbitrary()
                }
            },
            None => (Ok(left), p1),
        },
    }
}

/// The precedence climb: while an operator at least as strong as
/// `min_precedence` follows, consume it, parse the next term, parse the
/// right side at one more than the operator's precedence, and fold into a
/// left-associated node.
pub open spec fn spec_parse_ewp(toks: Seq<TokenV>, pos: int, min_precedence: u8, left: ExprV)
    -> (Result<ExprV, ParseErrV>, int)
    decreases toks.len() - pos, 5int,
    when 0 <= pos <= toks.len()
{
    match spec_peek_operator(toks, pos) {
        None => (Ok(left), pos),
        Some(op) => {
            let precedence = op_precedence(op);
            if precedence < min_precedence {
                (Ok(left), pos)
            } else {
                let (r1, p1) = spec_parse_term(toks, pos + 1);
                match r1 {
                    Err(e) => (Err(e), p1),
                    Ok(term) => {
                        // A term consumes at least one token; the bound
                        // checks only serve termination.
                        if pos < p1 <= toks.len() {
                            let (r2, p2) = spec_parse_ewp(
                                toks,
                                p1,
                                (precedence + 1) as u8,
                                term,
                            );
                            match r2 {
                                Err(e) => (Err(e), p2),
                                Ok(right) => {
                                    let folded = ExprV::ArithmeticExpression {
                                        left: Box::new(left),
                                        operator: op,
                                        right: Box::new(right),
                                    };
                                    if pos < p2 <= toks.len() {
                                        spec_parse_ewp(toks, p2, min_precedence, folded)
                                    } else {
                                        arbitrary()
                                    }
                                },
                            }
                        } else {
                            arbitrary()
                        }
                    },
                }
            }
        },
    }
}

/// Appends the closing separator of a statement to a parsed statement.
pub open spec fn spec_with_semicolon(toks: Seq<TokenV>, st: StmtV, pos: int) -> (Result<
    StmtV,
    ParseErrV,
>, int) {
    let (r, p) = spec_expect(toks, pos, TokenV::SemiColon);
    match r {
        Ok(_) => (Ok(st), p),
        Err(e) => (Err(e), p),
    }
}

/// One statement, dispatched on its leading token.
pub open spec fn spec_parse_statement(toks: Seq<TokenV>, pos: int) -> (Result<StmtV, ParseErrV>, int)
    decreases toks.len() - pos, 8int,
    when 0 <= pos <= toks.len()
{
    match spec_peek(toks, pos) {
        Some(TokenV::This) => {
            let (r1, p1) = spec_parse_variable_declaration(toks, pos);
            match r1 {
                Err(e) => (Err(e), p1),
                Ok(st) => spec_with_semicolon(toks, st, p1),
            }
        },
        Some(TokenV::Identifier(_)) => if spec_lookahead(toks, pos) == Some(TokenV::Equal) {
            let (r1, p1) = spec_parse_assignment(toks, pos);
            match r1 {
                Err(e) => (Err(e), p1),
                Ok(st) => spec_with_semicolon(toks, st, p1),
            }
        } else if spec_lookahead(toks, pos) == Some(TokenV::LeftParen) {
            let (r1, p1) = spec_parse_function_call_expression(toks, pos);
            match r1 {
                Err(e) => (Err(e), p1),
                Ok(e) => spec_with_semicolon(toks, StmtV::FunctionCall(e), p1),
            }
        } else {
            (Err(ParseErrV::InvalidStatement { position: pos as usize }), pos)
        },
        Some(TokenV::Func) => {
            let (r1, p1) = spec_parse_function_declaration(toks, pos);
            match r1 {
                Err(e) => (Err(e), p1),
                Ok(st) => spec_with_semicolon(toks, st, p1),
            }
        },
        Some(TokenV::Print) => {
            let (r1, p1) = spec_expect(toks, pos + 1, TokenV::LeftParen);
            match r1 {
                Err(e) => (Err(e), p1),
                Ok(_) => {
                    let (r2, p2) = spec_parse_expression(toks, p1);
                    match r2 {
                        Err(e) => (Err(e), p2),
                        Ok(e) => {
                            let (r3, p3) = spec_expect(toks, p2, TokenV::RightParen);
                            match r3 {
                                Err(err) => (Err(err), p3),
                                Ok(_) => spec_with_semicolon(toks, StmtV::Print(e), p3),
                            }
                        },
                    }
                },
            }
        },
        Some(TokenV::If) => {
            let (r1, p1) = spec_parse_condition(toks, pos + 1);
            match r1 {
                Err(e) => (Err(e), p1),
                Ok(condition) => {
                    // A condition consumes at least one token; the bound
                    // checks in this arm only serve termination.
                    if pos < p1 <= toks.len() {
                        let (r2, p2) = spec_parse_block(toks, p1);
                        match r2 {
                            Err(e) => (Err(e), p2),
                            Ok(then_block) => if spec_peek(toks, p2) == Some(TokenV::Else) {
                                if pos < p2 + 1 <= toks.len() {
                                    let (r3, p3) = spec_parse_block(toks, p2 + 1);
                                    match r3 {
                                        Err(e) => (Err(e), p3),
                                        Ok(else_block) => spec_with_semicolon(
                                            toks,
                                            StmtV::IfStatement {
                                                condition,
                                                then_block,
                                                else_block: Some(else_block),
                                            },
                                            p3,
                                        ),
                                    }
                                } else {
                                    arbitrary()
                                }
                            } else {
                                spec_with_semicolon(
                                    toks,
                                    StmtV::IfStatement { condition, then_block, else_block: None },
                                    p2,
                                )
                            },
                        }
                    } else {
                        arbitrary()
                    }
                },
            }
        },
        _ => (Err(ParseErrV::InvalidStatement { position: pos as usize }), pos),
    }
}

/// A variable declaration: `this <identifier> = <expression>`.
pub open spec fn spec_parse_variable_declaration(toks: Seq<TokenV>, pos: int) -> (Result<
    StmtV,
    ParseErrV,
>, int)
    decreases toks.len() - pos, 7int,
    when 0 <= pos <= toks.len()
{
    let (r1, p1) = spec_expect(toks, pos, TokenV::This);
    match r1 {
        Err(e) => (Err(e), p1),
        Ok(_) => {
            let (r2, p2) = spec_get_identifier(toks, p1);
            match r2 {
                Err(e) => (Err(e), p2),
                Ok(name) => {
                    let (r3, p3) = spec_expect(toks, p2, TokenV::Equal);
                    match r3 {
                        Err(e) => (Err(e), p3),
                        Ok(_) => {
                            let (r4, p4) = spec_parse_expression(toks, p3);
                            match r4 {
                                Err(e) => (Err(e), p4),
                                Ok(value) => (
                                    Ok(StmtV::VariableDeclaration { identifier: name, value }),
                                    p4,
                                ),
                            }
                        },
                    }
                },
            }
        },
    }
}

/// An assignment: `<identifier> = <expression>`.
pub open spec fn spec_parse_assignment(toks: Seq<TokenV>, pos: int) -> (Result<StmtV, ParseErrV>, int)
    decreases toks.len() - pos, 7int,
    when 0 <= pos <= toks.len()
{
    match spec_peek(toks, pos) {
        Some(TokenV::Identifier(name)) => {
            let (r1, p1) = spec_expect(toks, pos + 1, TokenV::Equal);
            match r1 {
                Err(e) => (Err(e), p1),
                Ok(_) => {
                    let (r2, p2) = spec_parse_expression(toks, p1);
                    match r2 {
                        Err(e) => (Err(e), p2),
                        Ok(value) => (Ok(StmtV::Assignment { identifier: name, value }), p2),
                    }
                },
            }
        },
        _ => (Err(ParseErrV::ExpectedIdentifier { position: pos as usize }), pos),
    }
}

/// A comma-separated parameter list of `name : int` entries.
pub open spec fn spec_parse_parameter_list(toks: Seq<TokenV>, pos: int) -> (Result<
    Seq<ParamV>,
    ParseErrV,
>, int)
    decreases toks.len() - pos,
    when 0 <= pos <= toks.len()
{
    match spec_peek(toks, pos) {
        Some(TokenV::Identifier(name)) => {
            let (r1, p1) = spec_expect(toks, pos + 1, TokenV::Colon);
            match r1 {
                Err(e) => (Err(e), p1),
                Ok(_) => {
                    let (r2, p2) = spec_expect(toks, p1, TokenV::Identifier("int"@));
                    match r2 {
                        Err(e) => (Err(e), p2),
                        Ok(_) => {
                            let param = ParamV { name, type_annotation: TypeAnnotation::Int };
                            if spec_peek(toks, p2) == Some(TokenV::Comma) {
                                let (r3, p3) = spec_parse_parameter_list(toks, p2 + 1);
                                match r3 {
                                    Err(e) => (Err(e), p3),
                                    Ok(rest) => (Ok(seq![param] + rest), p3),
                                }
                            } else {
                                (Ok(seq![param]), p2)
                            }
                        },
                    }
                },
            }
        },
        _ => (Ok(Seq::empty()), pos),
    }
}

/// A function declaration: name, parameters, optional return annotation,
/// body block.
pub open spec fn spec_parse_function_declaration(toks: Seq<TokenV>, pos: int) -> (Result<
    StmtV,
    ParseErrV,
>, int)
    decreases toks.len() - pos, 7int,
    when 0 <= pos <= toks.len()
{
    let (r1, p1) = spec_expect(toks, pos, TokenV::Func);
    match r1 {
        Err(e) => (Err(e), p1),
        Ok(_) => {
            let (r2, p2) = spec_get_identifier(toks, p1);
            match r2 {
                Err(e) => (Err(e), p2),
                Ok(name) => {
                    let (r3, p3) = spec_expect(toks, p2, TokenV::LeftParen);
                    match r3 {
                        Err(e) => (Err(e), p3),
                        Ok(_) => {
                            let (r4, p4) = spec_parse_parameter_list(toks, p3);
                            match r4 {
                                Err(e) => (Err(e), p4),
                                Ok(parameters) => {
                                    let (r5, p5) = spec_expect(toks, p4, TokenV::RightParen);
                                    match r5 {
                                        Err(e) => (Err(e), p5),
                                        Ok(_) => {
                                            let (rt, p6) = if spec_peek(toks, p5) == Some(
                                                TokenV::Arrow,
                                            ) {
                                                let (r6, p6) = spec_expect(
                                                    toks,
                                                    p5 + 1,
                                                    TokenV::Identifier("int"@),
                                                );
                                                match r6 {
                                                    Err(e) => (Err(e), p6),
                                                    Ok(_) => (
                                                        Ok(Some(TypeAnnotation::Int)),
                                                        p6,
                                                    ),
                                                }
                                            } else {
                                                (Ok(None), p5)
                                            };
                                            match rt {
                                                Err(e) => (Err(e), p6),
                                                Ok(return_type) => {
                                                    // Everything before the body consumes
                                                    // tokens; the bound check only serves
                                                    // termination.
                                                    if pos < p6 <= toks.len() {
                                                        let (r7, p7) = spec_parse_block(
                                                            toks,
                                                            p6,
                                                        );
                                                        match r7 {
                                                            Err(e) => (Err(e), p7),
                                                            Ok(body) => (
                                                                Ok(
                                                                    StmtV::FunctionDeclaration {
                                                                        name,
                                                                        parameters,
                                                                        return_type,
                                                                        body,
                                                                    },
                                                                ),
                                                                p7,
                                                            ),
                                                        }
                                                    } else {
                                                        arbitrary()
                                                    }
                                                },
                                            }
                                        },
                                    }
                                },
                            }
                        },
                    }
                },
            }
        },
    }
}

/// The statements of a block up to a right bracket, or a trailing return
/// expression which always ends the block.
pub open spec fn spec_parse_block_stmts(toks: Seq<TokenV>, pos: int) -> (Result<
    (Seq<StmtV>, Option<ExprV>),
    ParseErrV,
>, int)
    decreases toks.len() - pos, 9int,
    when 0 <= pos <= toks.len()
{
    match spec_peek(toks, pos) {
        None => (Ok((Seq::empty(), None)), pos),
        Some(t) => if t == TokenV::RightBracket {
            (Ok((Seq::empty(), None)), pos)
        } else if t == TokenV::Return {
            let (r1, p1) = spec_parse_expression(toks, pos + 1);
            match r1 {
                Err(e) => (Err(e), p1),
                Ok(e) => {
                    let (r2, p2) = spec_expect(toks, p1, TokenV::SemiColon);
                    match r2 {
                        Err(err) => (Err(err), p2),
                        Ok(_) => (Ok((Seq::empty(), Some(e))), p2),
                    }
                },
            }
        } else {
            let (r1, p1) = spec_parse_statement(toks, pos);
            match r1 {
                Err(e) => (Err(e), p1),
                Ok(st) => {
                    // A statement consumes at least one token; the bound
                    // check only serves termination.
                    if pos < p1 <= toks.len() {
                        let (r2, p2) = spec_parse_block_stmts(toks, p1);
                        match r2 {
                            Err(e) => (Err(e), p2),
                            Ok((rest, ret)) => (Ok((seq![st] + rest, ret)), p2),
                        }
                    } else {
                        arbitrary()
                    }
                },
            }
        },
    }
}

/// A block: left bracket, statements, optional return, right bracket.
pub open spec fn spec_parse_block(toks: Seq<TokenV>, pos: int) -> (Result<BlockV, ParseErrV>, int)
    decreases toks.len() - pos, 6int,
    when 0 <= pos <= toks.len()
{
    let (r1, p1) = spec_expect(toks, pos, TokenV::LeftBracket);
    match r1 {
        Err(e) => (Err(e), p1),
        Ok(_) => {
            let (r2, p2) = spec_parse_block_stmts(toks, p1);
            match r2 {
                Err(e) => (Err(e), p2),
                Ok((statements, return_expression)) => {
                    let (r3, p3) = spec_expect(toks, p2, TokenV::RightBracket);
                    match r3 {
                        Err(e) => (Err(e), p3),
                        Ok(_) => (Ok(BlockV { statements, return_expression }), p3),
                    }
                },
            }
        },
    }
}

/// A condition: expression, comparator, expression.
pub open spec fn spec_parse_condition(toks: Seq<TokenV>, pos: int) -> (Result<CondV, ParseErrV>, int)
    decreases toks.len() - pos, 7int,
    when 0 <= pos <= toks.len()
{
    let (r1, p1) = spec_parse_expression(toks, pos);
    match r1 {
        Err(e) => (Err(e), p1),
        Ok(left) => {
            // An expression consumes at least one token; the bound check
            // only serves termination.
            if pos <= p1 <= toks.len() {
                match spec_peek(toks, p1) {
                    Some(TokenV::CompareEqual) => {
                        let (r2, p2) = spec_parse_expression(toks, p1 + 1);
                        match r2 {
                            Err(e) => (Err(e), p2),
                            Ok(right) => (
                                Ok(
                                    CondV::Comparison {
                                        left,
                                        operator: ComparativeOperator::Equal,
                                        right,
                                    },
                                ),
                                p2,
                            ),
                        }
                    },
                    Some(TokenV::CompareNotEqual) => {
                        let (r2, p2) = spec_parse_expression(toks, p1 + 1);
                        match r2 {
                            Err(e) => (Err(e), p2),
                            Ok(right) => (
                                Ok(
                                    CondV::Comparison {
                                        left,
                                        operator: ComparativeOperator::NotEqual,
                                        right,
                                    },
                                ),
                                p2,
                            ),
                        }
                    },
                    Some(_) => (
                        Err(ParseErrV::UnsupportedComparator { position: p1 as usize }),
                        p1 + 1,
                    ),
                    None => (
                        Err(ParseErrV::UnsupportedComparator { position: p1 as usize }),
                        p1,
                    ),
                }
            } else {
                arbitrary()
            }
        },
    }
}

/// The top-level statement sequence of a whole program.
pub open spec fn spec_parse_stmts(toks: Seq<TokenV>, pos: int) -> (Result<Seq<StmtV>, ParseErrV>, int)
    decreases toks.len() - pos, 9int,
    when 0 <= pos <= toks.len()
{
    match spec_peek(toks, pos) {
        None => (Ok(Seq::empty()), pos),
        Some(_) => {
            let (r1, p1) = spec_parse_statement(toks, pos);
            match r1 {
                Err(e) => (Err(e), p1),
                Ok(st) => {
                    // A statement consumes at least one token; the bound
                    // check only serves termination.
                    if pos < p1 <= toks.len() {
                        let (r2, p2) = spec_parse_stmts(toks, p1);
                        match r2 {
                            Err(e) => (Err(e), p2),
                            Ok(rest) => (Ok(seq![st] + rest), p2),
                        }
                    } else {
                        arbitrary()
                    }
                },
            }
        },
    }
}

/// A whole program parsed from the start of the token sequence.
pub open spec fn spec_parse_program(toks: Seq<TokenV>) -> (Result<Seq<StmtV>, ParseErrV>, int) {
    spec_parse_stmts(toks, 0)
}

/// The parser: the token sequence and a cursor into it.
pub struct Parser {
    tokens: Vec<Token>,
    pos: usize,
}

impl Parser {
    /// The views of the tokens being parsed.
    pub closed spec fn toks(&self) -> Seq<TokenV> {
        tokens_view(self.tokens@)
    }

    /// The cursor position.
    pub closed spec fn cursor(&self) -> int {
        self.pos as int
    }

    /// A parser over the given tokens, positioned at the start.
    pub fn new(tokens: Vec<Token>) -> (r: Parser)
        ensures
            r.toks() == tokens_view(tokens@),
            r.cursor() == 0,
    {
        Parser { tokens, pos: 0 }
    }

    /// Advances past one token.
    fn next(&mut self)
        requires
            old(self).pos < old(self).tokens@.len(),
        ensures
            final(self).tokens@ == old(self).tokens@,
            final(self).pos == old(self).pos + 1,
    {
        let n = self.tokens.len();
        self.pos = self.pos + 1;
    }

    /// The token at the cursor, if any.
    fn peek(&self) -> (r: Option<&Token>)
        ensures
            match r {
                Some(t) => self.pos < self.tokens@.len() && *t == self.tokens@[self.pos as int]
                    && spec_peek(self.toks(), self.cursor()) == Some(token_view(*t)),
                None => self.pos >= self.tokens@.len() && spec_peek(self.toks(), self.cursor())
                    is None,
            },
    {
        if self.pos < self.tokens.len() {
            Some(&self.tokens[self.pos])
        } else {
            None
        }
    }

    /// The token after the one at the cursor, if any.
    fn lookahead(&self) -> (r: Option<&Token>)
        requires
            self.pos < self.tokens@.len(),
        ensures
            match r {
                Some(t) => self.pos + 1 < self.tokens@.len() && *t == self.tokens@[self.pos + 1]
                    && spec_lookahead(self.toks(), self.cursor()) == Some(token_view(*t)),
                None => self.pos + 1 >= self.tokens@.len() && spec_lookahead(
                    self.toks(),
                    self.cursor(),
                ) is None,
            },
    {
        let n = self.tokens.len();
        if self.pos + 1 < n {
            Some(&self.tokens[self.pos + 1])
        } else {
            None
        }
    }

    /// Consumes the given token, or reports what stood in its place.
    fn expect(&mut self, expected: Token) -> (r: Result<(), ParseError>)
        ensures
            final(self).tokens@ == old(self).tokens@,
            old(self).pos <= final(self).pos,
            ({
                let (sr, sp) = spec_expect(
                    old(self).toks(),
                    old(self).cursor(),
                    token_view(expected),
                );
                &&& final(self).cursor() == sp
                &&& match r {
                    Ok(_) => sr == Ok::<(), ParseErrV>(()) && old(self).pos < final(self).pos
                        && final(self).pos <= final(self).tokens@.len(),
                    Err(e) => sr == Err::<(), ParseErrV>(perr_view(e)),
                }
            }),
    {
        if self.pos < self.tokens.len() {
            if token_eq(&self.tokens[self.pos], &expected) {
                self.next();
                Ok(())
            } else {
                let found = clone_token(&self.tokens[self.pos]);
                Err(
                    ParseError::ExpectedToken {
                        expected,
                        position: self.pos,
                        found: Some(found),
                    },
                )
            }
        } else {
            Err(ParseError::ExpectedToken { expected, position: self.pos, found: None })
        }
    }

    /// Consumes one identifier and yields its name.
    fn get_identifier(&mut self) -> (r: Result<String, ParseError>)
        ensures
            final(self).tokens@ == old(self).tokens@,
            old(self).pos <= final(self).pos,
            ({
                let (sr, sp) = spec_get_identifier(old(self).toks(), old(self).cursor());
                &&& final(self).cursor() == sp
                &&& match r {
                    Ok(name) => sr == Ok::<Seq<char>, ParseErrV>(name@) && old(self).pos < final(self).pos && final(self).pos <= final(self).tokens@.len(),
                    Err(e) => sr == Err::<Seq<char>, ParseErrV>(perr_view(e)),
                }
            }),
    {
        if self.pos < self.tokens.len() {
            match &self.tokens[self.pos] {
                Token::Identifier(name) => {
                    let name = name.clone();
                    self.next();
                    Ok(name)
                },
                _ => Err(ParseError::ExpectedIdentifier { position: self.pos }),
            }
        } else {
            Err(ParseError::ExpectedIdentifier { position: self.pos })
        }
    }

    /// The arithmetic operator at the cursor, if the token there is one.
    fn peek_operator(&self) -> (r: Option<Operator>)
        ensures
            r == spec_peek_operator(self.toks(), self.cursor()),
    {
        match self.peek() {
            Some(Token::Plus) => Some(Operator::Add),
            Some(Token::Minus) => Some(Operator::Subtract),
            Some(Token::Multiply) => Some(Operator::Multiply),
            Some(Token::Divide) => Some(Operator::Divide),
            _ => None,
        }
    }

    /// Binding strength of an operator.
    fn operator_precedence(&self, operator: &Operator) -> (r: u8)
        ensures
            r == op_precedence(*operator),
    {
        match operator {
            Operator::Multiply | Operator::Divide => 2,
            Operator::Add | Operator::Subtract => 1,
        }
    }

    /// One term.
    fn parse_term(&mut self) -> (r: Result<Expression, ParseError>)
        requires
            self.pos <= self.tokens@.len(),
        ensures
            final(self).tokens@ == old(self).tokens@,
            old(self).pos <= final(self).pos,
            ({
                let (sr, sp) = spec_parse_term(old(self).toks(), old(self).cursor());
                &&& final(self).cursor() == sp
                &&& match r {
                    Ok(e) => sr == Ok::<ExprV, ParseErrV>(expr_view(e)) && old(self).pos < final(self).pos && final(self).pos <= final(self).tokens@.len(),
                    Err(e) => sr == Err::<ExprV, ParseErrV>(perr_view(e)),
                }
            }),
        decreases self.tokens@.len() - self.pos, 4int,
    {
        match self.peek() {
            None => Err(ParseError::UnexpectedEndOfInput { position: self.pos }),
            Some(Token::Integer(value)) => {
                let e = Expression::Integer(*value);
                self.next();
                Ok(e)
            },
            Some(Token::Identifier(_)) => {
                if matches!(self.lookahead(), Some(Token::LeftParen)) {
                    self.parse_function_call_expression()
                } else {
                    let name = match &self.tokens[self.pos] {
                        Token::Identifier(name) => name.clone(),
                        _ => return Err(ParseError::InvalidTerm { position: self.pos }),
                    };
                    self.next();
                    Ok(Expression::Identifier(name))
                }
            },
            Some(Token::LeftParen) => {
                self.next();
                let inner = match self.parse_expression() {
                    Ok(e) => e,
                    Err(e) => return Err(e),
                };
                match self.expect(Token::RightParen) {
                    Ok(_) => Ok(inner),
                    Err(e) => return Err(e),
                }
            },
            Some(_) => Err(ParseError::InvalidTerm { position: self.pos }),
        }
    }

    /// A call expression.
    fn parse_function_call_expression(&mut self) -> (r: Result<Expression, ParseError>)
        requires
            self.pos <= self.tokens@.len(),
        ensures
            final(self).tokens@ == old(self).tokens@,
            old(self).pos <= final(self).pos,
            ({
                let (sr, sp) = spec_parse_function_call_expression(
                    old(self).toks(),
                    old(self).cursor(),
                );
                &&& final(self).cursor() == sp
                &&& match r {
                    Ok(e) => sr == Ok::<ExprV, ParseErrV>(expr_view(e)) && old(self).pos < final(self).pos && final(self).pos <= final(self).tokens@.len(),
                    Err(e) => sr == Err::<ExprV, ParseErrV>(perr_view(e)),
                }
            }),
        decreases self.tokens@.len() - self.pos, 3int,
    {
        let name = match self.get_identifier() {
            Ok(name) => name,
            Err(e) => return Err(e),
        };
        match self.expect(Token::LeftParen) {
            Ok(_) => {},
            Err(e) => return Err(e),
        }
        let arguments = match self.parse_argument_list() {
            Ok(a) => a,
            Err(e) => return Err(e),
        };
        match self.expect(Token::RightParen) {
            Ok(_) => {},
            Err(e) => return Err(e),
        }
        Ok(Expression::FunctionCall { name, arguments })
    }

    /// A comma-separated argument list.
    #[verifier::loop_isolation(false)]
    fn parse_argument_list(&mut self) -> (r: Result<Vec<Expression>, ParseError>)
        requires
            self.pos <= self.tokens@.len(),
        ensures
            final(self).tokens@ == old(self).tokens@,
            old(self).pos <= final(self).pos,
            ({
                let (sr, sp) = spec_parse_argument_list(old(self).toks(), old(self).cursor());
                &&& final(self).cursor() == sp
                &&& match r {
                    Ok(es) => sr == Ok::<Seq<ExprV>, ParseErrV>(exprs_view(es@)) && final(self).pos <= final(self).tokens@.len(),
                    Err(e) => sr == Err::<Seq<ExprV>, ParseErrV>(perr_view(e)),
                }
            }),
        decreases self.tokens@.len() - self.pos, 6int,
    {
        let ghost toks = self.toks();
        let ghost pos0 = self.cursor();
        let mut arguments: Vec<Expression> = Vec::new();
        loop
            invariant
                self.pos <= self.tokens@.len(),
                self.tokens@ == old(self).tokens@,
                pos0 <= self.cursor(),
                spec_parse_argument_list(toks, pos0) == ({
                    let (sr, sp) = spec_parse_argument_list(toks, self.cursor());
                    (
                        match sr {
                            Ok(rest) => Ok(exprs_view(arguments@) + rest),
                            Err(e) => Err(e),
                        },
                        sp,
                    )
                }),
            decreases self.tokens@.len() - self.pos,
        {
            let ghost cur = self.cursor();
            match self.peek() {
                None => {
                    proof {
                        assert(exprs_view(arguments@) + Seq::<ExprV>::empty() =~= exprs_view(
                            arguments@,
                        ));
                    }
                    return Ok(arguments);
                },
                Some(Token::RightParen) => {
                    proof {
                        assert(exprs_view(arguments@) + Seq::<ExprV>::empty() =~= exprs_view(
                            arguments@,
                        ));
                    }
                    return Ok(arguments);
                },
                Some(_) => {},
            }
            let first = match self.parse_expression() {
                Ok(e) => e,
                Err(e) => return Err(e),
            };
            let has_comma = matches!(self.peek(), Some(Token::Comma));
            if has_comma {
                proof {
                    lemma_exprs_view_push(arguments@, first);
                    assert(exprs_view(arguments@).push(expr_view(first)) =~= exprs_view(
                        arguments@,
                    ) + seq![expr_view(first)]);
                    let (sr2, sp2) = spec_parse_argument_list(toks, self.cursor() + 1);
                    match sr2 {
                        Ok(rest) => {
                            assert((exprs_view(arguments@) + seq![expr_view(first)]) + rest
                                =~= exprs_view(arguments@) + (seq![expr_view(first)] + rest));
                        },
                        Err(_) => {},
                    }
                }
                arguments.push(first);
                self.next();
            } else {
                proof {
                    lemma_exprs_view_push(arguments@, first);
                    assert(exprs_view(arguments@).push(expr_view(first)) =~= exprs_view(
                        arguments@,
                    ) + seq![expr_view(first)]);
                }
                arguments.push(first);
                return Ok(arguments);
            }
        }
    }

    /// One expression.
    fn parse_expression(&mut self) -> (r: Result<Expression, ParseError>)
        requires
            self.pos <= self.tokens@.len(),
        ensures
            final(self).tokens@ == old(self).tokens@,
            old(self).pos <= final(self).pos,
            ({
                let (sr, sp) = spec_parse_expression(old(self).toks(), old(self).cursor());
                &&& final(self).cursor() == sp
                &&& match r {
                    Ok(e) => sr == Ok::<ExprV, ParseErrV>(expr_view(e)) && old(self).pos < final(self).pos && final(self).pos <= final(self).tokens@.len(),
                    Err(e) => sr == Err::<ExprV, ParseErrV>(perr_view(e)),
                }
            }),
        decreases self.tokens@.len() - self.pos, 5int,
    {
        let left = match self.parse_term() {
            Ok(e) => e,
            Err(e) => return Err(e),
        };
        match self.peek_operator() {
            Some(_) => self.parse_arithmetic_expression(left),
            None => Ok(left),
        }
    }

    /// The precedence climb entered with its first term already parsed.
    fn parse_arithmetic_expression(&mut self, left: Expression) -> (r: Result<
        Expression,
        ParseError,
    >)
        requires
            self.pos <= self.tokens@.len(),
        ensures
            final(self).tokens@ == old(self).tokens@,
            old(self).pos <= final(self).pos,
            ({
                let (sr, sp) = spec_parse_ewp(
                    old(self).toks(),
                    old(self).cursor(),
                    0u8,
                    expr_view(left),
                );
                &&& final(self).cursor() == sp
                &&& match r {
                    Ok(e) => sr == Ok::<ExprV, ParseErrV>(expr_view(e)) && final(self).pos
                        <= final(self).tokens@.len(),
                    Err(e) => sr == Err::<ExprV, ParseErrV>(perr_view(e)),
                }
            }),
        decreases self.tokens@.len() - self.pos, 6int,
    {
        self.parse_expression_with_precedence(0, left)
    }

    /// The precedence climb itself.
    #[verifier::loop_isolation(false)]
    fn parse_expression_with_precedence(&mut self, min_precedence: u8, left: Expression) -> (r:
        Result<Expression, ParseError>)
        requires
            self.pos <= self.tokens@.len(),
        ensures
            final(self).tokens@ == old(self).tokens@,
            old(self).pos <= final(self).pos,
            ({
                let (sr, sp) = spec_parse_ewp(
                    old(self).toks(),
                    old(self).cursor(),
                    min_precedence,
                    expr_view(left),
                );
                &&& final(self).cursor() == sp
                &&& match r {
                    Ok(e) => sr == Ok::<ExprV, ParseErrV>(expr_view(e)) && final(self).pos
                        <= final(self).tokens@.len(),
                    Err(e) => sr == Err::<ExprV, ParseErrV>(perr_view(e)),
                }
            }),
        decreases self.tokens@.len() - self.pos, 5int,
    {
        let ghost toks = self.toks();
        let ghost pos0 = self.cursor();
        let mut res = left;
        loop
            invariant
                self.pos <= self.tokens@.len(),
                self.tokens@ == old(self).tokens@,
                pos0 <= self.cursor(),
                spec_parse_ewp(toks, pos0, min_precedence, expr_view(left)) == spec_parse_ewp(
                    toks,
                    self.cursor(),
                    min_precedence,
                    expr_view(res),
                ),
            decreases self.tokens@.len() - self.pos,
        {
            let ghost cur = self.cursor();
            let operator = match self.peek_operator() {
                Some(op) => op,
                None => return Ok(res),
            };
            let precedence = self.operator_precedence(&operator);
            if precedence < min_precedence {
                return Ok(res);
            }
            self.next();
            let current_term = match self.parse_term() {
                Ok(t) => t,
                Err(e) => return Err(e),
            };
            let right = match self.parse_expression_with_precedence(
                precedence + 1,
                current_term,
            ) {
                Ok(e) => e,
                Err(e) => return Err(e),
            };
            res = Expression::ArithmeticExpression {
                left: Box::new(res),
                operator,
                right: Box::new(right),
            };
        }
    }

    /// Consumes the statement separator after a parsed statement.
    fn finish_statement(&mut self, st: Statement) -> (r: Result<Statement, ParseError>)
        ensures
            final(self).tokens@ == old(self).tokens@,
            old(self).pos <= final(self).pos,
            ({
                let (sr, sp) = spec_with_semicolon(
                    old(self).toks(),
                    stmt_view(st),
                    old(self).cursor(),
                );
                &&& final(self).cursor() == sp
                &&& match r {
                    Ok(out) => sr == Ok::<StmtV, ParseErrV>(stmt_view(out)) && old(self).pos
                        < final(self).pos && final(self).pos <= final(self).tokens@.len(),
                    Err(e) => sr == Err::<StmtV, ParseErrV>(perr_view(e)),
                }
            }),
    {
        match self.expect(Token::SemiColon) {
            Ok(_) => Ok(st),
            Err(e) => Err(e),
        }
    }

    /// One statement.
    #[verifier::rlimit(100)]
    fn parse_statement(&mut self) -> (r: Result<Statement, ParseError>)
        requires
            self.pos <= self.tokens@.len(),
        ensures
            final(self).tokens@ == old(self).tokens@,
            old(self).pos <= final(self).pos,
            ({
                let (sr, sp) = spec_parse_statement(old(self).toks(), old(self).cursor());
                &&& final(self).cursor() == sp
                &&& match r {
                    Ok(st) => sr == Ok::<StmtV, ParseErrV>(stmt_view(st)) && old(self).pos
                        < final(self).pos && final(self).pos <= final(self).tokens@.len(),
                    Err(e) => sr == Err::<StmtV, ParseErrV>(perr_view(e)),
                }
            }),
        decreases self.tokens@.len() - self.pos, 8int,
    {
        match self.peek() {
            Some(Token::This) => {
                let declaration = match self.parse_variable_declaration() {
                    Ok(st) => st,
                    Err(e) => return Err(e),
                };
                self.finish_statement(declaration)
            },
            Some(Token::Identifier(_)) => {
                if matches!(self.lookahead(), Some(Token::Equal)) {
                    let assignment = match self.parse_assignment() {
                        Ok(st) => st,
                        Err(e) => return Err(e),
                    };
                    self.finish_statement(assignment)
                } else if matches!(self.lookahead(), Some(Token::LeftParen)) {
                    let call = match self.parse_function_call_expression() {
                        Ok(e) => e,
                        Err(e) => return Err(e),
                    };
                    self.finish_statement(Statement::FunctionCall(call))
                } else {
                    Err(ParseError::InvalidStatement { position: self.pos })
                }
            },
            Some(Token::Func) => {
                let func_decl = match self.parse_function_declaration() {
                    Ok(st) => st,
                    Err(e) => return Err(e),
                };
                self.finish_statement(func_decl)
            },
            Some(Token::Print) => {
                self.next();
                match self.expect(Token::LeftParen) {
                    Ok(_) => {},
                    Err(e) => return Err(e),
                }
                let expression = match self.parse_expression() {
                    Ok(e) => e,
                    Err(e) => return Err(e),
                };
                match self.expect(Token::RightParen) {
                    Ok(_) => {},
                    Err(e) => return Err(e),
                }
                self.finish_statement(Statement::Print(expression))
            },
            Some(Token::If) => {
                self.next();
                let condition = match self.parse_condition() {
                    Ok(c) => c,
                    Err(e) => return Err(e),
                };
                let then_block = match self.parse_block() {
                    Ok(b) => b,
                    Err(e) => return Err(e),
                };
                let mut else_block: Option<Block> = None;
                if matches!(self.peek(), Some(Token::Else)) {
                    self.next();
                    else_block = match self.parse_block() {
                        Ok(b) => Some(b),
                        Err(e) => return Err(e),
                    };
                }
                self.finish_statement(
                    Statement::IfStatement { condition, then_block, else_block },
                )
            },
            _ => Err(ParseError::InvalidStatement { position: self.pos }),
        }
    }

    /// A variable declaration.
    fn parse_variable_declaration(&mut self) -> (r: Result<Statement, ParseError>)
        requires
            self.pos <= self.tokens@.len(),
        ensures
            final(self).tokens@ == old(self).tokens@,
            old(self).pos <= final(self).pos,
            ({
                let (sr, sp) = spec_parse_variable_declaration(
                    old(self).toks(),
                    old(self).cursor(),
                );
                &&& final(self).cursor() == sp
                &&& match r {
                    Ok(st) => sr == Ok::<StmtV, ParseErrV>(stmt_view(st)) && old(self).pos
                        < final(self).pos && final(self).pos <= final(self).tokens@.len(),
                    Err(e) => sr == Err::<StmtV, ParseErrV>(perr_view(e)),
                }
            }),
        decreases self.tokens@.len() - self.pos, 7int,
    {
        match self.expect(Token::This) {
            Ok(_) => {},
            Err(e) => return Err(e),
        }
        let name = match self.get_identifier() {
            Ok(name) => name,
            Err(_) => return Err(ParseError::ExpectedIdentifier { position: self.pos }),
        };
        match self.expect(Token::Equal) {
            Ok(_) => {},
            Err(e) => return Err(e),
        }
        let value = match self.parse_expression() {
            Ok(e) => e,
            Err(e) => return Err(e),
        };
        Ok(Statement::VariableDeclaration { identifier: name, value })
    }

    /// An assignment.
    fn parse_assignment(&mut self) -> (r: Result<Statement, ParseError>)
        requires
            self.pos <= self.tokens@.len(),
        ensures
            final(self).tokens@ == old(self).tokens@,
            old(self).pos <= final(self).pos,
            ({
                let (sr, sp) = spec_parse_assignment(old(self).toks(), old(self).cursor());
                &&& final(self).cursor() == sp
                &&& match r {
                    Ok(st) => sr == Ok::<StmtV, ParseErrV>(stmt_view(st)) && old(self).pos
                        < final(self).pos && final(self).pos <= final(self).tokens@.len(),
                    Err(e) => sr == Err::<StmtV, ParseErrV>(perr_view(e)),
                }
            }),
        decreases self.tokens@.len() - self.pos, 7int,
    {
        let identifier = match self.peek() {
            Some(Token::Identifier(_)) => {
                match &self.tokens[self.pos] {
                    Token::Identifier(name) => name.clone(),
                    _ => return Err(ParseError::ExpectedIdentifier { position: self.pos }),
                }
            },
            _ => return Err(ParseError::ExpectedIdentifier { position: self.pos }),
        };
        self.next();
        match self.expect(Token::Equal) {
            Ok(_) => {},
            Err(e) => return Err(e),
        }
        let value = match self.parse_expression() {
            Ok(e) => e,
            Err(e) => return Err(e),
        };
        Ok(Statement::Assignment { identifier, value })
    }

    /// A comma-separated parameter list.
    #[verifier::loop_isolation(false)]
    fn parse_parameter_list(&mut self) -> (r: Result<Vec<Parameter>, ParseError>)
        requires
            self.pos <= self.tokens@.len(),
        ensures
            final(self).tokens@ == old(self).tokens@,
            old(self).pos <= final(self).pos,
            ({
                let (sr, sp) = spec_parse_parameter_list(old(self).toks(), old(self).cursor());
                &&& final(self).cursor() == sp
                &&& match r {
                    Ok(ps) => sr == Ok::<Seq<ParamV>, ParseErrV>(params_view(ps@)) && final(self).pos <= final(self).tokens@.len(),
                    Err(e) => sr == Err::<Seq<ParamV>, ParseErrV>(perr_view(e)),
                }
            }),
    {
        let ghost toks = self.toks();
        let ghost pos0 = self.cursor();
        let mut parameters: Vec<Parameter> = Vec::new();
        loop
            invariant
                self.pos <= self.tokens@.len(),
                self.tokens@ == old(self).tokens@,
                pos0 <= self.cursor(),
                spec_parse_parameter_list(toks, pos0) == ({
                    let (sr, sp) = spec_parse_parameter_list(toks, self.cursor());
                    (
                        match sr {
                            Ok(rest) => Ok(params_view(parameters@) + rest),
                            Err(e) => Err(e),
                        },
                        sp,
                    )
                }),
            decreases self.tokens@.len() - self.pos,
        {
            let param_name = match self.peek() {
                Some(Token::Identifier(_)) => {
                    match &self.tokens[self.pos] {
                        Token::Identifier(name) => name.clone(),
                        _ => {
                            proof {
                                assert(params_view(parameters@) + Seq::<ParamV>::empty()
                                    =~= params_view(parameters@));
                            }
                            return Ok(parameters);
                        },
                    }
                },
                _ => {
                    proof {
                        assert(params_view(parameters@) + Seq::<ParamV>::empty() =~= params_view(
                            parameters@,
                        ));
                    }
                    return Ok(parameters);
                },
            };
            self.next();
            match self.expect(Token::Colon) {
                Ok(_) => {},
                Err(e) => return Err(e),
            }
            match self.expect(Token::Identifier("int".to_owned())) {
                Ok(_) => {},
                Err(e) => return Err(e),
            }
            let param = Parameter { name: param_name, type_annotation: TypeAnnotation::Int };
            proof {
                lemma_params_view_push(parameters@, param);
                assert(params_view(parameters@).push(param_view(param)) =~= params_view(
                    parameters@,
                ) + seq![param_view(param)]);
                let (sr2, sp2) = spec_parse_parameter_list(toks, self.cursor() + 1);
                match sr2 {
                    Ok(rest) => {
                        assert((params_view(parameters@) + seq![param_view(param)]) + rest
                            =~= params_view(parameters@) + (seq![param_view(param)] + rest));
                    },
                    Err(_) => {},
                }
            }
            let has_comma = matches!(self.peek(), Some(Token::Comma));
            parameters.push(param);
            if has_comma {
                self.next();
            } else {
                return Ok(parameters);
            }
        }
    }

    /// A function declaration.
    fn parse_function_declaration(&mut self) -> (r: Result<Statement, ParseError>)
        requires
            self.pos <= self.tokens@.len(),
        ensures
            final(self).tokens@ == old(self).tokens@,
            old(self).pos <= final(self).pos,
            ({
                let (sr, sp) = spec_parse_function_declaration(
                    old(self).toks(),
                    old(self).cursor(),
                );
                &&& final(self).cursor() == sp
                &&& match r {
                    Ok(st) => sr == Ok::<StmtV, ParseErrV>(stmt_view(st)) && old(self).pos
                        < final(self).pos && final(self).pos <= final(self).tokens@.len(),
                    Err(e) => sr == Err::<StmtV, ParseErrV>(perr_view(e)),
                }
            }),
        decreases self.tokens@.len() - self.pos, 7int,
    {
        match self.expect(Token::Func) {
            Ok(_) => {},
            Err(e) => return Err(e),
        }
        let name = match self.get_identifier() {
            Ok(name) => name,
            Err(e) => return Err(e),
        };
        match self.expect(Token::LeftParen) {
            Ok(_) => {},
            Err(e) => return Err(e),
        }
        let parameters = match self.parse_parameter_list() {
            Ok(ps) => ps,
            Err(e) => return Err(e),
        };
        match self.expect(Token::RightParen) {
            Ok(_) => {},
            Err(e) => return Err(e),
        }
        let return_type: Option<TypeAnnotation> = if matches!(self.peek(), Some(Token::Arrow)) {
            self.next();
            match self.expect(Token::Identifier("int".to_owned())) {
                Ok(_) => Some(TypeAnnotation::Int),
                Err(e) => return Err(e),
            }
        } else {
            None
        };
        let body = match self.parse_block() {
            Ok(b) => b,
            Err(e) => return Err(e),
        };
        Ok(Statement::FunctionDeclaration { name, parameters, return_type, body })
    }

    /// The statements of a block, up to a right bracket or through a
    /// trailing return expression.
    #[verifier::loop_isolation(false)]
    fn parse_block_stmts(&mut self) -> (r: Result<(Vec<Statement>, Option<Expression>), ParseError>)
        requires
            self.pos <= self.tokens@.len(),
        ensures
            final(self).tokens@ == old(self).tokens@,
            old(self).pos <= final(self).pos,
            ({
                let (sr, sp) = spec_parse_block_stmts(old(self).toks(), old(self).cursor());
                &&& final(self).cursor() == sp
                &&& match r {
                    Ok(out) => sr == Ok::<(Seq<StmtV>, Option<ExprV>), ParseErrV>(
                        (
                            stmts_view(out.0@),
                            match out.1 {
                                Some(e) => Some(expr_view(e)),
                                None => None,
                            },
                        ),
                    ) && final(self).pos <= final(self).tokens@.len(),
                    Err(e) => sr == Err::<(Seq<StmtV>, Option<ExprV>), ParseErrV>(perr_view(e)),
                }
            }),
        decreases self.tokens@.len() - self.pos, 9int,
    {
        let ghost toks = self.toks();
        let ghost pos0 = self.cursor();
        let mut statements: Vec<Statement> = Vec::new();
        loop
            invariant
                self.pos <= self.tokens@.len(),
                self.tokens@ == old(self).tokens@,
                pos0 <= self.cursor(),
                spec_parse_block_stmts(toks, pos0) == ({
                    let (sr, sp) = spec_parse_block_stmts(toks, self.cursor());
                    (
                        match sr {
                            Ok(out) => Ok::<(Seq<StmtV>, Option<ExprV>), ParseErrV>(
                                (stmts_view(statements@) + out.0, out.1),
                            ),
                            Err(e) => Err(e),
                        },
                        sp,
                    )
                }),
            decreases self.tokens@.len() - self.pos,
        {
            match self.peek() {
                None => {
                    proof {
                        assert(stmts_view(statements@) + Seq::<StmtV>::empty() =~= stmts_view(
                            statements@,
                        ));
                    }
                    return Ok((statements, None));
                },
                Some(Token::RightBracket) => {
                    proof {
                        assert(stmts_view(statements@) + Seq::<StmtV>::empty() =~= stmts_view(
                            statements@,
                        ));
                    }
                    return Ok((statements, None));
                },
                Some(Token::Return) => {
                    self.next();
                    let e = match self.parse_expression() {
                        Ok(e) => e,
                        Err(e) => return Err(e),
                    };
                    match self.expect(Token::SemiColon) {
                        Ok(_) => {},
                        Err(e) => return Err(e),
                    }
                    proof {
                        assert(stmts_view(statements@) + Seq::<StmtV>::empty() =~= stmts_view(
                            statements@,
                        ));
                    }
                    return Ok((statements, Some(e)));
                },
                Some(_) => {},
            }
            let st = match self.parse_statement() {
                Ok(st) => st,
                Err(e) => return Err(e),
            };
            proof {
                lemma_stmts_view_push(statements@, st);
                assert(stmts_view(statements@).push(stmt_view(st)) =~= stmts_view(statements@)
                    + seq![stmt_view(st)]);
                let (sr2, sp2) = spec_parse_block_stmts(toks, self.cursor());
                match sr2 {
                    Ok(out) => {
                        assert((stmts_view(statements@) + seq![stmt_view(st)]) + out.0
                            =~= stmts_view(statements@) + (seq![stmt_view(st)] + out.0));
                    },
                    Err(_) => {},
                }
            }
            statements.push(st);
        }
    }

    /// A block.
    fn parse_block(&mut self) -> (r: Result<Block, ParseError>)
        requires
            self.pos <= self.tokens@.len(),
        ensures
            final(self).tokens@ == old(self).tokens@,
            old(self).pos <= final(self).pos,
            ({
                let (sr, sp) = spec_parse_block(old(self).toks(), old(self).cursor());
                &&& final(self).cursor() == sp
                &&& match r {
                    Ok(b) => sr == Ok::<BlockV, ParseErrV>(block_view(b)) && old(self).pos
                        < final(self).pos && final(self).pos <= final(self).tokens@.len(),
                    Err(e) => sr == Err::<BlockV, ParseErrV>(perr_view(e)),
                }
            }),
        decreases self.tokens@.len() - self.pos, 6int,
    {
        match self.expect(Token::LeftBracket) {
            Ok(_) => {},
            Err(e) => return Err(e),
        }
        let (statements, return_expression) = match self.parse_block_stmts() {
            Ok(out) => out,
            Err(e) => return Err(e),
        };
        match self.expect(Token::RightBracket) {
            Ok(_) => {},
            Err(e) => return Err(e),
        }
        Ok(Block { statements, return_expression })
    }

    /// A condition.
    fn parse_condition(&mut self) -> (r: Result<Condition, ParseError>)
        requires
            self.pos <= self.tokens@.len(),
        ensures
            final(self).tokens@ == old(self).tokens@,
            old(self).pos <= final(self).pos,
            ({
                let (sr, sp) = spec_parse_condition(old(self).toks(), old(self).cursor());
                &&& final(self).cursor() == sp
                &&& match r {
                    Ok(c) => sr == Ok::<CondV, ParseErrV>(cond_view(c)) && old(self).pos < final(self).pos && final(self).pos <= final(self).tokens@.len(),
                    Err(e) => sr == Err::<CondV, ParseErrV>(perr_view(e)),
                }
            }),
        decreases self.tokens@.len() - self.pos, 7int,
    {
        let left = match self.parse_expression() {
            Ok(e) => e,
            Err(e) => return Err(e),
        };
        let operator = match self.peek() {
            Some(Token::CompareEqual) => {
                self.next();
                ComparativeOperator::Equal
            },
            Some(Token::CompareNotEqual) => {
                self.next();
                ComparativeOperator::NotEqual
            },
            Some(_) => {
                let position = self.pos;
                self.next();
                return Err(ParseError::UnsupportedComparator { position });
            },
            None => {
                return Err(ParseError::UnsupportedComparator { position: self.pos });
            },
        };
        let right = match self.parse_expression() {
            Ok(e) => e,
            Err(e) => return Err(e),
        };
        Ok(Condition::Comparison { left, operator, right })
    }

    /// The whole program: statements until the tokens run out.
    #[verifier::loop_isolation(false)]
    pub fn parse(&mut self) -> (r: Result<Program, ParseError>)
        ensures
            ({
                let (sr, sp) = spec_parse_stmts(old(self).toks(), old(self).cursor());
                old(self).cursor() <= old(self).toks().len() ==> {
                    &&& final(self).cursor() == sp
                    &&& match r {
                        Ok(p) => sr == Ok::<Seq<StmtV>, ParseErrV>(program_view(p)),
                        Err(e) => sr == Err::<Seq<StmtV>, ParseErrV>(perr_view(e)),
                    }
                }
            }),
    {
        let ghost toks = self.toks();
        let ghost pos0 = self.cursor();
        let mut statements: Vec<Statement> = Vec::new();
        if self.pos > self.tokens.len() {
            return Ok(Program::Statements(statements));
        }
        loop
            invariant
                self.pos <= self.tokens@.len(),
                self.tokens@ == old(self).tokens@,
                pos0 <= self.cursor(),
                spec_parse_stmts(toks, pos0) == ({
                    let (sr, sp) = spec_parse_stmts(toks, self.cursor());
                    (
                        match sr {
                            Ok(rest) => Ok(stmts_view(statements@) + rest),
                            Err(e) => Err(e),
                        },
                        sp,
                    )
                }),
            decreases self.tokens@.len() - self.pos,
        {
            if self.pos >= self.tokens.len() {
                proof {
                    assert(stmts_view(statements@) + Seq::<StmtV>::empty() =~= stmts_view(
                        statements@,
                    ));
                }
                return Ok(Program::Statements(statements));
            }
            let st = match self.parse_statement() {
                Ok(st) => st,
                Err(e) => return Err(e),
            };
            proof {
                lemma_stmts_view_push(statements@, st);
                assert(stmts_view(statements@).push(stmt_view(st)) =~= stmts_view(statements@)
                    + seq![stmt_view(st)]);
                let (sr2, sp2) = spec_parse_stmts(toks, self.cursor());
                match sr2 {
                    Ok(rest) => {
                        assert((stmts_view(statements@) + seq![stmt_view(st)]) + rest
                            =~= stmts_view(statements@) + (seq![stmt_view(st)] + rest));
                    },
                    Err(_) => {},
                }
            }
            statements.push(st);
        }
    }
}

} // verus!
