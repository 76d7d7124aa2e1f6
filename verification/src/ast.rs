//! The syntax tree produced by the parser, together with its mathematical
//! view: each node type has a view into a ghost mirror whose names are
//! `Seq<char>` and whose lists are `Seq`, so contracts can speak about
//! trees extensionally.

use vstd::prelude::*;

verus! {

broadcast use
    vstd::std_specs::vec::axiom_vec_decreases_to_view,
    vstd::seq::axiom_seq_index_decreases,
    vstd::seq::axiom_seq_subrange_decreases;

/// An arithmetic operator of a binary expression.
#[derive(Debug, Clone, Copy, PartialEq, Eq, Structural)]
pub enum Operator {
    Add,
    Subtract,
    Multiply,
    Divide,
}

/// A comparator of a condition: `==` or `=!`.
#[derive(Debug, Clone, Copy, PartialEq, Eq, Structural)]
pub enum ComparativeOperator {
    Equal,
    NotEqual,
}

/// The only type the language knows: a signed 64-bit integer.
#[derive(Debug, Clone, Copy, PartialEq, Eq, Structural)]
pub enum TypeAnnotation {
    Int,
}

/// An expression: a strict tree owning its subtrees.
#[derive(Debug, PartialEq)]
pub enum Expression {
    Integer(i64),
    Identifier(String),
    FunctionCall { name: String, arguments: Vec<Expression> },
    ArithmeticExpression { left: Box<Expression>, operator: Operator, right: Box<Expression> },
}

/// A function parameter: a name and its (always integer) type annotation.
#[derive(Debug, PartialEq)]
pub struct Parameter {
    pub name: String,
    pub type_annotation: TypeAnnotation,
}

/// A statement of the language.
#[derive(Debug, PartialEq)]
pub enum Statement {
    VariableDeclaration { identifier: String, value: Expression },
    FunctionDeclaration {
        name: String,
        parameters: Vec<Parameter>,
        return_type: Option<TypeAnnotation>,
        body: Block,
    },
    FunctionCall(Expression),
    Assignment { identifier: String, value: Expression },
    Print(Expression),
    IfStatement { condition: Condition, then_block: Block, else_block: Option<Block> },
}

/// An ordered list of statements with an optional trailing return expression.
#[derive(Debug, PartialEq)]
pub struct Block {
    pub statements: Vec<Statement>,
    pub return_expression: Option<Expression>,
}

/// A condition: a single comparison between two expressions.
#[derive(Debug, PartialEq)]
pub enum Condition {
    Comparison { left: Expression, operator: ComparativeOperator, right: Expression },
}

/// A whole source program: its top-level statements in order.
#[derive(Debug, PartialEq)]
pub enum Program {
    Statements(Vec<Statement>),
}

/// Ghost mirror of `Expression`.
pub enum ExprV {
    Integer(i64),
    Identifier(Seq<char>),
    FunctionCall { name: Seq<char>, arguments: Seq<ExprV> },
    ArithmeticExpression { left: Box<ExprV>, operator: Operator, right: Box<ExprV> },
}

/// Ghost mirror of `Parameter`.
pub struct ParamV {
    pub name: Seq<char>,
    pub type_annotation: TypeAnnotation,
}

/// Ghost mirror of `Statement`.
pub enum StmtV {
    VariableDeclaration { identifier: Seq<char>, value: ExprV },
    FunctionDeclaration {
        name: Seq<char>,
        parameters: Seq<ParamV>,
        return_type: Option<TypeAnnotation>,
        body: BlockV,
    },
    FunctionCall(ExprV),
    Assignment { identifier: Seq<char>, value: ExprV },
    Print(ExprV),
    IfStatement { condition: CondV, then_block: BlockV, else_block: Option<BlockV> },
}

/// Ghost mirror of `Block`.
pub struct BlockV {
    pub statements: Seq<StmtV>,
    pub return_expression: Option<ExprV>,
}

/// Ghost mirror of `Condition`.
pub enum CondV {
    Comparison { left: ExprV, operator: ComparativeOperator, right: ExprV },
}

/// The view of a sequence of expressions, elementwise.
pub open spec fn exprs_view(es: Seq<Expression>) -> Seq<ExprV>
    decreases es,
{
    if es.len() == 0 {
        Seq::empty()
    } else {
        exprs_view(es.subrange(0, es.len() - 1)).push(expr_view(es[es.len() - 1]))
    }
}

/// The view of an expression tree.
pub open spec fn expr_view(e: Expression) -> ExprV
    decreases e,
{
    match e {
        Expression::Integer(value) => ExprV::Integer(value),
        Expression::Identifier(name) => ExprV::Identifier(name@),
        Expression::FunctionCall { name, arguments } => ExprV::FunctionCall {
            name: name@,
            arguments: exprs_view(arguments@),
        },
        Expression::ArithmeticExpression { left, operator, right } => {
            ExprV::ArithmeticExpression {
                left: Box::new(expr_view(*left)),
                operator,
                right: Box::new(expr_view(*right)),
            }
        },
    }
}

/// The view of a parameter.
pub open spec fn param_view(p: Parameter) -> ParamV {
    ParamV { name: p.name@, type_annotation: p.type_annotation }
}

/// The view of a parameter list, elementwise.
pub open spec fn params_view(ps: Seq<Parameter>) -> Seq<ParamV>
    decreases ps,
{
    if ps.len() == 0 {
        Seq::empty()
    } else {
        params_view(ps.subrange(0, ps.len() - 1)).push(param_view(ps[ps.len() - 1]))
    }
}

/// The view of a condition.
pub open spec fn cond_view(c: Condition) -> CondV {
    match c {
        Condition::Comparison { left, operator, right } => CondV::Comparison {
            left: expr_view(left),
            operator,
            right: expr_view(right),
        },
    }
}

/// The view of a sequence of statements, elementwise.
pub open spec fn stmts_view(ss: Seq<Statement>) -> Seq<StmtV>
    decreases ss,
{
    if ss.len() == 0 {
        Seq::empty()
    } else {
        stmts_view(ss.subrange(0, ss.len() - 1)).push(stmt_view(ss[ss.len() - 1]))
    }
}

/// The view of a statement.
pub open spec fn stmt_view(s: Statement) -> StmtV
    decreases s,
{
    match s {
        Statement::VariableDeclaration { identifier, value } => StmtV::VariableDeclaration {
            identifier: identifier@,
            value: expr_view(value),
        },
        Statement::FunctionDeclaration { name, parameters, return_type, body } => {
            StmtV::FunctionDeclaration {
                name: name@,
                parameters: params_view(parameters@),
                return_type,
                body: block_view(body),
            }
        },
        Statement::FunctionCall(e) => StmtV::FunctionCall(expr_view(e)),
        Statement::Assignment { identifier, value } => StmtV::Assignment {
            identifier: identifier@,
            value: expr_view(value),
        },
        Statement::Print(e) => StmtV::Print(expr_view(e)),
        Statement::IfStatement { condition, then_block, else_block } => StmtV::IfStatement {
            condition: cond_view(condition),
            then_block: block_view(then_block),
            else_block: match else_block {
                Some(b) => Some(block_view(b)),
                None => None,
            },
        },
    }
}

/// The view of a block.
pub open spec fn block_view(b: Block) -> BlockV
    decreases b,
{
    BlockV {
        statements: stmts_view(b.statements@),
        return_expression: match b.return_expression {
            Some(e) => Some(expr_view(e)),
            None => None,
        },
    }
}

/// The view of a program: the sequence of its top-level statements.
pub open spec fn program_view(p: Program) -> Seq<StmtV> {
    match p {
        Program::Statements(ss) => stmts_view(ss@),
    }
}

/// Views commute with `push` on expression lists.
pub proof fn lemma_exprs_view_push(es: Seq<Expression>, e: Expression)
    ensures
        exprs_view(es.push(e)) == exprs_view(es).push(expr_view(e)),
{
    let t = es.push(e);
    assert(t.subrange(0, t.len() - 1) =~= es);
}

/// Views commute with `push` on parameter lists.
pub proof fn lemma_params_view_push(ps: Seq<Parameter>, p: Parameter)
    ensures
        params_view(ps.push(p)) == params_view(ps).push(param_view(p)),
{
    let t = ps.push(p);
    assert(t.subrange(0, t.len() - 1) =~= ps);
}

/// Views commute with `push` on statement lists.
pub proof fn lemma_stmts_view_push(ss: Seq<Statement>, s: Statement)
    ensures
        stmts_view(ss.push(s)) == stmts_view(ss).push(stmt_view(s)),
{
    let t = ss.push(s);
    assert(t.subrange(0, t.len() - 1) =~= ss);
}

/// The view of a statement list has the same length and views each element.
pub proof fn lemma_stmts_view_index(ss: Seq<Statement>)
    ensures
        stmts_view(ss).len() == ss.len(),
        forall|i: int| 0 <= i < ss.len() ==> stmts_view(ss)[i] == stmt_view(#[trigger] ss[i]),
    decreases ss,
{
    if ss.len() > 0 {
        lemma_stmts_view_index(ss.subrange(0, ss.len() - 1));
        assert forall|i: int| 0 <= i < ss.len() implies stmts_view(ss)[i] == stmt_view(
            #[trigger] ss[i],
        ) by {
            if i < ss.len() - 1 {
                assert(ss.subrange(0, ss.len() - 1)[i] == ss[i]);
            }
        }
    }
}

/// The view of a statement list splits around any index.
pub proof fn lemma_stmts_view_split(ss: Seq<Statement>, k: int)
    requires
        0 <= k <= ss.len(),
    ensures
        stmts_view(ss) == stmts_view(ss.subrange(0, k)) + stmts_view(
            ss.subrange(k, ss.len() as int),
        ),
{
    let left = ss.subrange(0, k);
    let right = ss.subrange(k, ss.len() as int);
    lemma_stmts_view_index(ss);
    lemma_stmts_view_index(left);
    lemma_stmts_view_index(right);
    assert forall|m: int| 0 <= m < ss.len() implies (stmts_view(left) + stmts_view(right))[m]
        == stmts_view(ss)[m] by {
        if m < k {
            assert(left[m] == ss[m]);
        } else {
            assert(right[m - k] == ss[m]);
        }
    }
    assert(stmts_view(ss) =~= stmts_view(left) + stmts_view(right));
}

/// A deep copy of an expression tree, equal to the original under the view.
#[verifier::loop_isolation(false)]
pub fn clone_expr(e: &Expression) -> (r: Expression)
    ensures
        expr_view(r) == expr_view(*e),
    decreases e,
{
    match e {
        Expression::Integer(value) => Expression::Integer(*value),
        Expression::Identifier(name) => Expression::Identifier(name.clone()),
        Expression::FunctionCall { name, arguments } => {
            let mut cloned: Vec<Expression> = Vec::new();
            let mut i: usize = 0;
            while i < arguments.len()
                invariant
                    i <= arguments.len(),
                    cloned@.len() == i,
                    exprs_view(cloned@) == exprs_view(arguments@.subrange(0, i as int)),
                decreases arguments.len() - i,
            {
                let a = clone_expr(&arguments[i]);
                proof {
                    lemma_exprs_view_push(cloned@, a);
                    lemma_exprs_view_push(arguments@.subrange(0, i as int), arguments@[i as int]);
                    assert(arguments@.subrange(0, i as int).push(arguments@[i as int]) =~= arguments@
                        .subrange(0, i + 1));
                }
                cloned.push(a);
                i = i + 1;
            }
            proof {
                assert(arguments@.subrange(0, arguments@.len() as int) =~= arguments@);
            }
            Expression::FunctionCall { name: name.clone(), arguments: cloned }
        },
        Expression::ArithmeticExpression { left, operator, right } => {
            Expression::ArithmeticExpression {
                left: Box::new(clone_expr(left)),
                operator: *operator,
                right: Box::new(clone_expr(right)),
            }
        },
    }
}

} // verus!
