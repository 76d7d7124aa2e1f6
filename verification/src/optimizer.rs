//! Constant folding: a pure, bottom-up rewrite of arithmetic expressions.
//! Both literal operands evaluate at compile time (division only when the
//! right literal is nonzero); a literal on one side applies the algebraic
//! identities for addition and multiplication; everything else is rebuilt
//! unchanged. The spec functions `fold_*` state the rewrite mathematically,
//! and every executable function is proved to implement them exactly.

use vstd::prelude::*;

use crate::ast::{
    Block, BlockV, CondV, Condition, ExprV, Expression, Operator, Parameter, Program, Statement,
    StmtV, block_view, clone_expr, cond_view, expr_view, lemma_params_view_push,
    lemma_stmts_view_push, params_view, program_view, stmt_view, stmts_view,
};

verus! {

broadcast use
    vstd::std_specs::vec::axiom_vec_decreases_to_view,
    vstd::seq::axiom_seq_index_decreases,
    vstd::seq::axiom_seq_subrange_decreases;

/// An arithmetic node built from the given parts.
pub open spec fn arith(l: ExprV, op: Operator, r: ExprV) -> ExprV {
    ExprV::ArithmeticExpression { left: Box::new(l), operator: op, right: Box::new(r) }
}

/// Truncating 64-bit division for a nonzero divisor; the one overflowing
/// quotient (`i64::MIN / -1`) wraps to `i64::MIN`.
pub open spec fn div_trunc(a: i64, b: i64) -> i64
    recommends
        b != 0,
{
    match a.checked_div(b) {
        Some(q) => q,
        None => i64::MIN,
    }
}

/// One folding step on a binary node whose children are already folded.
pub open spec fn fold_binary(l: ExprV, op: Operator, r: ExprV) -> ExprV {
    match (l, op, r) {
        (ExprV::Integer(a), Operator::Add, ExprV::Integer(b)) => ExprV::Integer(
            a.wrapping_add(b),
        ),
        (ExprV::Integer(a), Operator::Subtract, ExprV::Integer(b)) => ExprV::Integer(
            a.wrapping_sub(b),
        ),
        (ExprV::Integer(a), Operator::Multiply, ExprV::Integer(b)) => ExprV::Integer(
            a.wrapping_mul(b),
        ),
        (ExprV::Integer(a), Operator::Divide, ExprV::Integer(b)) => if b != 0 {
            ExprV::Integer(div_trunc(a, b))
        } else {
            arith(l, op, r)
        },
        (ExprV::Integer(a), Operator::Multiply, rr) => if a == 1 {
            rr
        } else if a == 0 {
            ExprV::Integer(0)
        } else {
            arith(l, op, r)
        },
        (ll, Operator::Multiply, ExprV::Integer(b)) => if b == 1 {
            ll
        } else if b == 0 {
            ExprV::Integer(0)
        } else {
            arith(l, op, r)
        },
        (ExprV::Integer(a), Operator::Add, rr) => if a == 0 {
            rr
        } else {
            arith(l, op, r)
        },
        (ll, Operator::Add, ExprV::Integer(b)) => if b == 0 {
            ll
        } else {
            arith(l, op, r)
        },
        _ => arith(l, op, r),
    }
}

/// Bottom-up constant folding of an expression. Function-call arguments are
/// deliberately not folded, and non-arithmetic nodes pass through unchanged.
pub open spec fn fold_expr(e: ExprV) -> ExprV
    decreases e,
{
    match e {
        ExprV::ArithmeticExpression { left, operator, right } => fold_binary(
            fold_expr(*left),
            operator,
            fold_expr(*right),
        ),
        _ => e,
    }
}

/// Folding applied to both sides of a condition.
pub open spec fn fold_cond(c: CondV) -> CondV {
    match c {
        CondV::Comparison { left, operator, right } => CondV::Comparison {
            left: fold_expr(left),
            operator,
            right: fold_expr(right),
        },
    }
}

/// Folding applied to each statement of a sequence.
pub open spec fn fold_stmts(ss: Seq<StmtV>) -> Seq<StmtV>
    decreases ss,
{
    if ss.len() == 0 {
        Seq::empty()
    } else {
        fold_stmts(ss.subrange(0, ss.len() - 1)).push(fold_stmt(ss[ss.len() - 1]))
    }
}

/// Folding applied to every value-bearing expression of a statement,
/// recursing into nested blocks; the statement structure is preserved.
pub open spec fn fold_stmt(s: StmtV) -> StmtV
    decreases s,
{
    match s {
        StmtV::VariableDeclaration { identifier, value } => StmtV::VariableDeclaration {
            identifier,
            value: fold_expr(value),
        },
        StmtV::FunctionDeclaration { name, parameters, return_type, body } => {
            StmtV::FunctionDeclaration { name, parameters, return_type, body: fold_block(body) }
        },
        StmtV::FunctionCall(e) => StmtV::FunctionCall(fold_expr(e)),
        StmtV::Assignment { identifier, value } => StmtV::Assignment {
            identifier,
            value: fold_expr(value),
        },
        StmtV::Print(e) => StmtV::Print(fold_expr(e)),
        StmtV::IfStatement { condition, then_block, else_block } => StmtV::IfStatement {
            condition: fold_cond(condition),
            then_block: fold_block(then_block),
            else_block: match else_block {
                Some(b) => Some(fold_block(b)),
                None => None,
            },
        },
    }
}

/// Folding applied to a block's statements and its return expression.
pub open spec fn fold_block(b: BlockV) -> BlockV
    decreases b,
{
    BlockV {
        statements: fold_stmts(b.statements),
        return_expression: match b.return_expression {
            Some(e) => Some(fold_expr(e)),
            None => None,
        },
    }
}

/// Folding a statement sequence commutes with `push`.
pub proof fn lemma_fold_stmts_push(ss: Seq<StmtV>, s: StmtV)
    ensures
        fold_stmts(ss.push(s)) == fold_stmts(ss).push(fold_stmt(s)),
{
    let t = ss.push(s);
    assert(t.subrange(0, t.len() - 1) =~= ss);
}

/// The additive and multiplicative identities fold away: `0 + y`, `y + 0`,
/// `1 * y` and `y * 1` fold to what `y` folds to, and `0 * y` and `y * 0`
/// fold to the literal zero, whatever `y` is.
pub proof fn lemma_fold_identity(y: ExprV)
    ensures
        fold_expr(arith(ExprV::Integer(0), Operator::Add, y)) == fold_expr(y),
        fold_expr(arith(y, Operator::Add, ExprV::Integer(0))) == fold_expr(y),
        fold_expr(arith(ExprV::Integer(1), Operator::Multiply, y)) == fold_expr(y),
        fold_expr(arith(y, Operator::Multiply, ExprV::Integer(1))) == fold_expr(y),
        fold_expr(arith(ExprV::Integer(0), Operator::Multiply, y)) == ExprV::Integer(0),
        fold_expr(arith(y, Operator::Multiply, ExprV::Integer(0))) == ExprV::Integer(0),
{
    let fy = fold_expr(y);
    assert(fold_expr(ExprV::Integer(0)) == ExprV::Integer(0));
    assert(fold_expr(ExprV::Integer(1)) == ExprV::Integer(1));
    match fy {
        ExprV::Integer(b) => {
            assert(0i64.wrapping_add(b) == b);
            assert(b.wrapping_add(0i64) == b);
            assert(1i64.wrapping_mul(b) == b);
            assert(b.wrapping_mul(1i64) == b);
            assert(0i64.wrapping_mul(b) == 0);
            assert(b.wrapping_mul(0i64) == 0);
        },
        _ => {},
    }
}

/// Division by a literal zero is never folded: the node is rebuilt as it is,
/// deferring the failure to run time.
pub proof fn lemma_fold_keeps_division_by_zero(a: i64)
    ensures
        fold_expr(arith(ExprV::Integer(a), Operator::Divide, ExprV::Integer(0))) == arith(
            ExprV::Integer(a),
            Operator::Divide,
            ExprV::Integer(0),
        ),
{
    assert(fold_expr(ExprV::Integer(a)) == ExprV::Integer(a));
    assert(fold_expr(ExprV::Integer(0)) == ExprV::Integer(0));
}

/// The constant-folding pass.
pub struct Optimizer;

impl Optimizer {
    /// Rebuilds a whole program with every statement folded.
    #[verifier::loop_isolation(false)]
    pub fn optimize_ast(program: Program) -> (r: Program)
        ensures
            program_view(r) == fold_stmts(program_view(program)),
    {
        match program {
            Program::Statements(statements) => {
                let mut folded: Vec<Statement> = Vec::new();
                let mut i: usize = 0;
                while i < statements.len()
                    invariant
                        i <= statements.len(),
                        stmts_view(folded@) == fold_stmts(
                            stmts_view(statements@.subrange(0, i as int)),
                        ),
                    decreases statements.len() - i,
                {
                    let s = Self::optimize_statement(&statements[i]);
                    proof {
                        lemma_stmts_view_push(folded@, s);
                        lemma_fold_stmts_push(
                            stmts_view(statements@.subrange(0, i as int)),
                            stmt_view(statements@[i as int]),
                        );
                        lemma_stmts_view_push(
                            statements@.subrange(0, i as int),
                            statements@[i as int],
                        );
                        assert(statements@.subrange(0, i as int).push(statements@[i as int]) =~=
                            statements@.subrange(0, i + 1));
                    }
                    folded.push(s);
                    i = i + 1;
                }
                proof {
                    assert(statements@.subrange(0, statements@.len() as int) =~= statements@);
                }
                Program::Statements(folded)
            },
        }
    }

    /// Folds every value-bearing expression of one statement.
    #[verifier::loop_isolation(false)]
    fn optimize_statement(statement: &Statement) -> (r: Statement)
        ensures
            stmt_view(r) == fold_stmt(stmt_view(*statement)),
        decreases statement,
    {
        match statement {
            Statement::VariableDeclaration { identifier, value } => {
                Statement::VariableDeclaration {
                    identifier: identifier.clone(),
                    value: Self::constant_fold(value),
                }
            },
            Statement::FunctionDeclaration { name, parameters, return_type, body } => {
                Statement::FunctionDeclaration {
                    name: name.clone(),
                    parameters: Self::clone_parameters(parameters),
                    return_type: match return_type {
                        Some(t) => Some(*t),
                        None => None,
                    },
                    body: Self::optimize_block(body),
                }
            },
            Statement::FunctionCall(e) => Statement::FunctionCall(Self::constant_fold(e)),
            Statement::Assignment { identifier, value } => Statement::Assignment {
                identifier: identifier.clone(),
                value: Self::constant_fold(value),
            },
            Statement::Print(e) => Statement::Print(Self::constant_fold(e)),
            Statement::IfStatement { condition, then_block, else_block } => {
                Statement::IfStatement {
                    condition: Self::optimize_condition(condition),
                    then_block: Self::optimize_block(then_block),
                    else_block: match else_block {
                        Some(b) => Some(Self::optimize_block(b)),
                        None => None,
                    },
                }
            },
        }
    }

    /// Folds the statements and the return expression of a block.
    #[verifier::loop_isolation(false)]
    fn optimize_block(block: &Block) -> (r: Block)
        ensures
            block_view(r) == fold_block(block_view(*block)),
        decreases block,
    {
        let mut folded: Vec<Statement> = Vec::new();
        let mut i: usize = 0;
        while i < block.statements.len()
            invariant
                i <= block.statements.len(),
                stmts_view(folded@) == fold_stmts(
                    stmts_view(block.statements@.subrange(0, i as int)),
                ),
            decreases block.statements.len() - i,
        {
            let s = Self::optimize_statement(&block.statements[i]);
            proof {
                lemma_stmts_view_push(folded@, s);
                lemma_fold_stmts_push(
                    stmts_view(block.statements@.subrange(0, i as int)),
                    stmt_view(block.statements@[i as int]),
                );
                lemma_stmts_view_push(
                    block.statements@.subrange(0, i as int),
                    block.statements@[i as int],
                );
                assert(block.statements@.subrange(0, i as int).push(block.statements@[i as int])
                    =~= block.statements@.subrange(0, i + 1));
            }
            folded.push(s);
            i = i + 1;
        }
        proof {
            assert(block.statements@.subrange(0, block.statements@.len() as int) =~= block
                .statements@);
        }
        Block {
            statements: folded,
            return_expression: match &block.return_expression {
                Some(e) => Some(Self::constant_fold(e)),
                None => None,
            },
        }
    }

    /// Folds both sides of a comparison.
    fn optimize_condition(condition: &Condition) -> (r: Condition)
        ensures
            cond_view(r) == fold_cond(cond_view(*condition)),
    {
        match condition {
            Condition::Comparison { left, operator, right } => Condition::Comparison {
                left: Self::constant_fold(left),
                operator: *operator,
                right: Self::constant_fold(right),
            },
        }
    }

    /// Bottom-up constant folding of one expression tree; the input is left
    /// intact and a new tree is returned.
    pub fn constant_fold(expression: &Expression) -> (r: Expression)
        ensures
            expr_view(r) == fold_expr(expr_view(*expression)),
        decreases expression,
    {
        match expression {
            Expression::ArithmeticExpression { left, operator, right } => {
                let l = Self::constant_fold(left);
                let r = Self::constant_fold(right);
                Self::fold_binary_step(l, *operator, r)
            },
            other => clone_expr(other),
        }
    }

    /// One folding step on a binary node whose children are already folded.
    fn fold_binary_step(l: Expression, op: Operator, r: Expression) -> (res: Expression)
        ensures
            expr_view(res) == fold_binary(expr_view(l), op, expr_view(r)),
    {
        match (l, op, r) {
            (Expression::Integer(a), Operator::Add, Expression::Integer(b)) => {
                Expression::Integer(a.wrapping_add(b))
            },
            (Expression::Integer(a), Operator::Subtract, Expression::Integer(b)) => {
                Expression::Integer(a.wrapping_sub(b))
            },
            (Expression::Integer(a), Operator::Multiply, Expression::Integer(b)) => {
                Expression::Integer(a.wrapping_mul(b))
            },
            (Expression::Integer(a), Operator::Divide, Expression::Integer(b)) => {
                if b != 0 {
                    match a.checked_div(b) {
                        Some(q) => Expression::Integer(q),
                        None => Expression::Integer(i64::MIN),
                    }
                } else {
                    Expression::ArithmeticExpression {
                        left: Box::new(Expression::Integer(a)),
                        operator: Operator::Divide,
                        right: Box::new(Expression::Integer(b)),
                    }
                }
            },
            (Expression::Integer(a), Operator::Multiply, rr) => {
                if a == 1 {
                    rr
                } else if a == 0 {
                    Expression::Integer(0)
                } else {
                    Expression::ArithmeticExpression {
                        left: Box::new(Expression::Integer(a)),
                        operator: Operator::Multiply,
                        right: Box::new(rr),
                    }
                }
            },
            (ll, Operator::Multiply, Expression::Integer(b)) => {
                if b == 1 {
                    ll
                } else if b == 0 {
                    Expression::Integer(0)
                } else {
                    Expression::ArithmeticExpression {
                        left: Box::new(ll),
                        operator: Operator::Multiply,
                        right: Box::new(Expression::Integer(b)),
                    }
                }
            },
            (Expression::Integer(a), Operator::Add, rr) => {
                if a == 0 {
                    rr
                } else {
                    Expression::ArithmeticExpression {
                        left: Box::new(Expression::Integer(a)),
                        operator: Operator::Add,
                        right: Box::new(rr),
                    }
                }
            },
            (ll, Operator::Add, Expression::Integer(b)) => {
                if b == 0 {
                    ll
                } else {
                    Expression::ArithmeticExpression {
                        left: Box::new(ll),
                        operator: Operator::Add,
                        right: Box::new(Expression::Integer(b)),
                    }
                }
            },
            (ll, any_op, rr) => Expression::ArithmeticExpression {
                left: Box::new(ll),
                operator: any_op,
                right: Box::new(rr),
            },
        }
    }

    /// A copy of a parameter list, equal to the original under the view.
    #[verifier::loop_isolation(false)]
    fn clone_parameters(parameters: &Vec<Parameter>) -> (r: Vec<Parameter>)
        ensures
            params_view(r@) == params_view(parameters@),
    {
        let mut cloned: Vec<Parameter> = Vec::new();
        let mut i: usize = 0;
        while i < parameters.len()
            invariant
                i <= parameters.len(),
                params_view(cloned@) == params_view(parameters@.subrange(0, i as int)),
            decreases parameters.len() - i,
        {
            let p = Parameter {
                name: parameters[i].name.clone(),
                type_annotation: parameters[i].type_annotation,
            };
            proof {
                lemma_params_view_push(cloned@, p);
                lemma_params_view_push(
                    parameters@.subrange(0, i as int),
                    parameters@[i as int],
                );
                assert(parameters@.subrange(0, i as int).push(parameters@[i as int]) =~=
                    parameters@.subrange(0, i + 1));
            }
            cloned.push(p);
            i = i + 1;
        }
        proof {
            assert(parameters@.subrange(0, parameters@.len() as int) =~= parameters@);
        }
        cloned
    }
}

} // verus!
