//! The code generator: a syntax tree to one flat instruction sequence.
//! Function bodies are emitted inline between `DECLARE`/`ENTER` and `EXIT`
//! markers, with parameters stored in reverse declared order; conditionals
//! emit placeholder jumps to fresh labels that a final pass back-patches to
//! absolute instruction addresses. The spec functions `spec_gen_*` mirror
//! the emission state machine exactly and `spec_generate` states the whole
//! translation.

use vstd::prelude::*;

use crate::ast::{
    Block, BlockV, CondV, Condition, ComparativeOperator, ExprV, Expression, Operator, ParamV,
    Parameter, Program, Statement, StmtV, block_view, cond_view, expr_view, exprs_view,
    lemma_exprs_view_push, lemma_params_view_push, lemma_stmts_view_push, params_view, program_view,
    stmt_view, stmts_view,
};

verus! {

broadcast use
    vstd::std_specs::vec::axiom_vec_decreases_to_view,
    vstd::seq::axiom_seq_index_decreases,
    vstd::seq::axiom_seq_subrange_decreases;

/// One instruction of the flat bytecode sequence.
#[derive(Debug, PartialEq)]
#[allow(non_camel_case_types)]
pub enum OpCode {
    /// Push a constant onto the operand stack.
    PUSH(i64),
    /// Pop and print the top of the stack.
    PRINT,
    ADD,
    SUB,
    MUL,
    DIV,
    /// Pop the top of the stack into the named variable.
    STORE(String),
    /// Push the named variable's value.
    LOAD(String),
    /// Record the function's entry address and skip its inline body.
    DECLARE(String),
    /// Jump to the named function reusing the current frame.
    TailCall(String),
    /// Push a new frame and jump to the named function.
    CALL(String),
    /// Pop the current frame and resume at its return address.
    RET,
    /// Function prologue marker.
    ENTER,
    /// Function epilogue marker; the end of an inline body.
    EXIT,
    /// Unconditional jump to an absolute instruction address.
    JUMP(usize),
    /// Jump to an absolute address if the popped value is zero.
    JmpIfFalse(usize),
    /// Pop two values and push 1 if equal, else 0.
    EQUAL,
    /// Pop two values and push 1 if unequal, else 0.
    NotEqual,
}

/// Ghost mirror of `OpCode`.
#[allow(non_camel_case_types)]
pub enum OpV {
    PUSH(i64),
    PRINT,
    ADD,
    SUB,
    MUL,
    DIV,
    STORE(Seq<char>),
    LOAD(Seq<char>),
    DECLARE(Seq<char>),
    TailCall(Seq<char>),
    CALL(Seq<char>),
    RET,
    ENTER,
    EXIT,
    JUMP(usize),
    JmpIfFalse(usize),
    EQUAL,
    NotEqual,
}

/// The view of one instruction.
pub open spec fn op_view(op: OpCode) -> OpV {
    match op {
        OpCode::PUSH(v) => OpV::PUSH(v),
        OpCode::PRINT => OpV::PRINT,
        OpCode::ADD => OpV::ADD,
        OpCode::SUB => OpV::SUB,
        OpCode::MUL => OpV::MUL,
        OpCode::DIV => OpV::DIV,
        OpCode::STORE(name) => OpV::STORE(name@),
        OpCode::LOAD(name) => OpV::LOAD(name@),
        OpCode::DECLARE(name) => OpV::DECLARE(name@),
        OpCode::TailCall(name) => OpV::TailCall(name@),
        OpCode::CALL(name) => OpV::CALL(name@),
        OpCode::RET => OpV::RET,
        OpCode::ENTER => OpV::ENTER,
        OpCode::EXIT => OpV::EXIT,
        OpCode::JUMP(a) => OpV::JUMP(a),
        OpCode::JmpIfFalse(a) => OpV::JmpIfFalse(a),
        OpCode::EQUAL => OpV::EQUAL,
        OpCode::NotEqual => OpV::NotEqual,
    }
}

/// The view of an instruction sequence, elementwise.
pub open spec fn ops_view(ops: Seq<OpCode>) -> Seq<OpV> {
    Seq::new(ops.len(), |i: int| op_view(ops[i]))
}

/// A failure of code generation. Both variants report broken internal
/// invariants of the generator, not bad user input.
#[derive(Debug, PartialEq)]
pub enum GenError {
    /// A jump referred to a label that was never positioned.
    UnresolvedLabel { label: usize },
    /// A pending patch site did not hold a jump instruction.
    UnexpectedOpcode { index: usize },
    /// The label counter was exhausted.
    TooManyLabels,
}

/// Ghost state of the generator: emitted instructions, the next label, the
/// positions labels resolved to, and the patch sites still pending.
pub struct GenV {
    pub ops: Seq<OpV>,
    pub counter: usize,
    pub positions: Seq<(usize, usize)>,
    pub pending: Seq<(usize, usize)>,
}

/// The generator's starting state.
pub open spec fn initial_gen() -> GenV {
    GenV { ops: Seq::empty(), counter: 0, positions: Seq::empty(), pending: Seq::empty() }
}

/// Appends one instruction.
pub open spec fn spec_emit(g: GenV, op: OpV) -> GenV {
    GenV { ops: g.ops.push(op), ..g }
}

/// A fresh label.
pub open spec fn spec_new_label(g: GenV) -> Result<(usize, GenV), GenError> {
    if g.counter == usize::MAX {
        Err(GenError::TooManyLabels)
    } else {
        Ok((g.counter, GenV { counter: (g.counter + 1) as usize, ..g }))
    }
}

/// Records that the given label stands at the next instruction index.
pub open spec fn spec_set_label_position(g: GenV, label: usize) -> GenV {
    GenV { positions: g.positions.push((label, g.ops.len() as usize)), ..g }
}

/// Appends a placeholder jump and records it for back-patching.
pub open spec fn spec_emit_jump(g: GenV, op: OpV, label: usize) -> GenV {
    GenV { ops: g.ops.push(op), pending: g.pending.push((label, g.ops.len() as usize)), ..g }
}

/// The emission of one arithmetic operator.
pub open spec fn spec_gen_operator(g: GenV, op: Operator) -> GenV {
    match op {
        Operator::Add => spec_emit(g, OpV::ADD),
        Operator::Subtract => spec_emit(g, OpV::SUB),
        Operator::Multiply => spec_emit(g, OpV::MUL),
        Operator::Divide => spec_emit(g, OpV::DIV),
    }
}

/// The emission of one comparator.
pub open spec fn spec_gen_comparative_operator(g: GenV, op: ComparativeOperator) -> GenV {
    match op {
        ComparativeOperator::Equal => spec_emit(g, OpV::EQUAL),
        ComparativeOperator::NotEqual => spec_emit(g, OpV::NotEqual),
    }
}

/// The emission of an expression list, left to right.
pub open spec fn spec_gen_exprs(g: GenV, es: Seq<ExprV>) -> GenV
    decreases es,
{
    if es.len() == 0 {
        g
    } else {
        spec_gen_expr(spec_gen_exprs(g, es.subrange(0, es.len() - 1)), es[es.len() - 1])
    }
}

/// The emission of one expression: operands before operators, arguments
/// before the call.
pub open spec fn spec_gen_expr(g: GenV, e: ExprV) -> GenV
    decreases e,
{
    match e {
        ExprV::Integer(value) => spec_emit(g, OpV::PUSH(value)),
        ExprV::Identifier(name) => spec_emit(g, OpV::LOAD(name)),
        ExprV::ArithmeticExpression { left, operator, right } => spec_gen_operator(
            spec_gen_expr(spec_gen_expr(g, *left), *right),
            operator,
        ),
        ExprV::FunctionCall { name, arguments } => spec_emit(
            spec_gen_exprs(g, arguments),
            OpV::CALL(name),
        ),
    }
}

/// The emission of a condition: both sides, then the comparator.
pub open spec fn spec_gen_cond(g: GenV, c: CondV) -> GenV {
    match c {
        CondV::Comparison { left, operator, right } => spec_gen_comparative_operator(
            spec_gen_expr(spec_gen_expr(g, left), right),
            operator,
        ),
    }
}

/// The parameter stores of a function prologue, in reverse declared order.
pub open spec fn spec_gen_param_stores(g: GenV, ps: Seq<ParamV>) -> GenV
    decreases ps,
{
    if ps.len() == 0 {
        g
    } else {
        spec_gen_param_stores(
            spec_emit(g, OpV::STORE(ps[ps.len() - 1].name)),
            ps.subrange(0, ps.len() - 1),
        )
    }
}

/// The emission of a statement sequence, in order.
pub open spec fn spec_gen_stmts(g: GenV, ss: Seq<StmtV>) -> Result<GenV, GenError>
    decreases ss,
{
    if ss.len() == 0 {
        Ok(g)
    } else {
        match spec_gen_stmts(g, ss.subrange(0, ss.len() - 1)) {
            Err(e) => Err(e),
            Ok(g1) => spec_gen_stmt(g1, ss[ss.len() - 1]),
        }
    }
}

/// The emission of one statement.
pub open spec fn spec_gen_stmt(g: GenV, s: StmtV) -> Result<GenV, GenError>
    decreases s,
{
    match s {
        StmtV::VariableDeclaration { identifier, value } => Ok(
            spec_emit(spec_gen_expr(g, value), OpV::STORE(identifier)),
        ),
        StmtV::Assignment { identifier, value } => Ok(
            spec_emit(spec_gen_expr(g, value), OpV::STORE(identifier)),
        ),
        StmtV::FunctionDeclaration { name, parameters, body, .. } => {
            let g1 = spec_emit(g, OpV::DECLARE(name));
            let g2 = spec_emit(g1, OpV::ENTER);
            let g3 = spec_gen_param_stores(g2, parameters);
            let has_return = body.return_expression is Some;
            match spec_gen_block(g3, body) {
                Err(e) => Err(e),
                Ok(g4) => {
                    let g5 = if has_return {
                        g4
                    } else {
                        spec_emit(g4, OpV::RET)
                    };
                    Ok(spec_emit(g5, OpV::EXIT))
                },
            }
        },
        StmtV::FunctionCall(e) => Ok(spec_gen_expr(g, e)),
        StmtV::Print(e) => Ok(spec_emit(spec_gen_expr(g, e), OpV::PRINT)),
        StmtV::IfStatement { condition, then_block, else_block } => {
            let g1 = spec_gen_cond(g, condition);
            match spec_new_label(g1) {
                Err(e) => Err(e),
                Ok((else_label, g2)) => match spec_new_label(g2) {
                    Err(e) => Err(e),
                    Ok((end_label, g3)) => {
                        let g4 = spec_emit_jump(g3, OpV::JmpIfFalse(0), else_label);
                        match spec_gen_block(g4, then_block) {
                            Err(e) => Err(e),
                            Ok(g5) => {
                                let g6 = spec_emit_jump(g5, OpV::JUMP(0), end_label);
                                let g7 = spec_set_label_position(g6, else_label);
                                let g8r = match else_block {
                                    Some(b) => spec_gen_block(g7, b),
                                    None => Ok(g7),
                                };
                                match g8r {
                                    Err(e) => Err(e),
                                    Ok(g8) => Ok(spec_set_label_position(g8, end_label)),
                                }
                            },
                        }
                    },
                },
            }
        },
    }
}

/// The emission of a block: its statements, then its return expression. A
/// returned direct call becomes a tail call; every return expression is
/// followed by an explicit return.
pub open spec fn spec_gen_block(g: GenV, b: BlockV) -> Result<GenV, GenError>
    decreases b,
{
    match spec_gen_stmts(g, b.statements) {
        Err(e) => Err(e),
        Ok(g1) => match b.return_expression {
            Some(e) => match e {
                ExprV::FunctionCall { name, arguments } => Ok(
                    spec_emit(
                        spec_emit(spec_gen_exprs(g1, arguments), OpV::TailCall(name)),
                        OpV::RET,
                    ),
                ),
                _ => Ok(spec_emit(spec_gen_expr(g1, e), OpV::RET)),
            },
            None => Ok(g1),
        },
    }
}

/// The position a label resolved to: the last recorded one wins.
pub open spec fn spec_lookup(entries: Seq<(usize, usize)>, label: usize) -> Option<usize>
    decreases entries,
{
    if entries.len() == 0 {
        None
    } else if entries[entries.len() - 1].0 == label {
        Some(entries[entries.len() - 1].1)
    } else {
        spec_lookup(entries.subrange(0, entries.len() - 1), label)
    }
}

/// Back-patching: each pending site, in order, has its placeholder address
/// overwritten with its label's resolved position.
pub open spec fn spec_resolve(
    ops: Seq<OpV>,
    pending: Seq<(usize, usize)>,
    positions: Seq<(usize, usize)>,
) -> Result<Seq<OpV>, GenError>
    decreases pending,
{
    if pending.len() == 0 {
        Ok(ops)
    } else {
        let (label, index) = pending[0];
        match spec_lookup(positions, label) {
            None => Err(GenError::UnresolvedLabel { label }),
            Some(position) => if index < ops.len() {
                match ops[index as int] {
                    OpV::JUMP(_) => spec_resolve(
                        ops.update(index as int, OpV::JUMP(position)),
                        pending.subrange(1, pending.len() as int),
                        positions,
                    ),
                    OpV::JmpIfFalse(_) => spec_resolve(
                        ops.update(index as int, OpV::JmpIfFalse(position)),
                        pending.subrange(1, pending.len() as int),
                        positions,
                    ),
                    _ => Err(GenError::UnexpectedOpcode { index }),
                }
            } else {
                spec_resolve(ops, pending.subrange(1, pending.len() as int), positions)
            },
        }
    }
}

/// The whole translation: emit every statement from the starting state,
/// then resolve every pending jump.
pub open spec fn spec_generate(prog: Seq<StmtV>) -> Result<Seq<OpV>, GenError> {
    match spec_gen_stmts(initial_gen(), prog) {
        Err(e) => Err(e),
        Ok(g) => spec_resolve(g.ops, g.pending, g.positions),
    }
}

/// Emitting a statement sequence that already failed keeps failing the same
/// way when more statements follow.
pub proof fn lemma_gen_stmts_append_err(g: GenV, xs: Seq<StmtV>, ys: Seq<StmtV>)
    requires
        spec_gen_stmts(g, xs) is Err,
    ensures
        spec_gen_stmts(g, xs + ys) == spec_gen_stmts(g, xs),
    decreases ys.len(),
{
    if ys.len() == 0 {
        assert(xs + ys =~= xs);
    } else {
        let front = ys.subrange(0, ys.len() - 1);
        lemma_gen_stmts_append_err(g, xs, front);
        assert((xs + ys).subrange(0, (xs + ys).len() - 1) =~= xs + front);
        assert((xs + ys).len() > 0);
    }
}

/// Emitting a statement sequence commutes with `push`.
pub proof fn lemma_gen_stmts_push(g: GenV, ss: Seq<StmtV>, s: StmtV)
    ensures
        spec_gen_stmts(g, ss.push(s)) == (match spec_gen_stmts(g, ss) {
            Err(e) => Err(e),
            Ok(g1) => spec_gen_stmt(g1, s),
        }),
{
    let t = ss.push(s);
    assert(t.subrange(0, t.len() - 1) =~= ss);
}

/// Emitting an expression list commutes with `push`.
pub proof fn lemma_gen_exprs_push(g: GenV, es: Seq<ExprV>, e: ExprV)
    ensures
        spec_gen_exprs(g, es.push(e)) == spec_gen_expr(spec_gen_exprs(g, es), e),
{
    let t = es.push(e);
    assert(t.subrange(0, t.len() - 1) =~= es);
}

/// The code generator: the instructions emitted so far, the label counter,
/// the recorded label positions, and the jumps awaiting back-patching.
pub struct CodeGenerator {
    opcode_list: Vec<OpCode>,
    label_counter: usize,
    label_positions: Vec<(usize, usize)>,
    unresolved_jumps: Vec<(usize, usize)>,
}

impl CodeGenerator {
    /// The ghost state of the generator.
    pub closed spec fn gen_view(&self) -> GenV {
        GenV {
            ops: ops_view(self.opcode_list@),
            counter: self.label_counter,
            positions: self.label_positions@,
            pending: self.unresolved_jumps@,
        }
    }

    /// A generator in the starting state.
    pub fn new() -> (r: CodeGenerator)
        ensures
            r.gen_view() == initial_gen(),
    {
        let r = CodeGenerator {
            opcode_list: Vec::new(),
            label_counter: 0,
            label_positions: Vec::new(),
            unresolved_jumps: Vec::new(),
        };
        proof {
            assert(r.gen_view().ops =~= initial_gen().ops);
            assert(r.gen_view().positions =~= initial_gen().positions);
            assert(r.gen_view().pending =~= initial_gen().pending);
            assert(r.gen_view() =~= initial_gen());
        }
        r
    }

    /// Appends one instruction.
    fn emit(&mut self, op: OpCode)
        ensures
            final(self).gen_view() == spec_emit(old(self).gen_view(), op_view(op)),
    {
        proof {
            assert(ops_view(self.opcode_list@.push(op)) =~= ops_view(self.opcode_list@).push(
                op_view(op),
            ));
        }
        self.opcode_list.push(op);
    }

    /// A fresh label.
    fn get_new_label(&mut self) -> (r: Result<usize, GenError>)
        ensures
            match r {
                Ok(label) => spec_new_label(old(self).gen_view()) == Ok::<
                    (usize, GenV),
                    GenError,
                >((label, final(self).gen_view())),
                Err(e) => spec_new_label(old(self).gen_view()) == Err::<(usize, GenV), GenError>(
                    e,
                ) && final(self).gen_view() == old(self).gen_view(),
            },
    {
        if self.label_counter == usize::MAX {
            Err(GenError::TooManyLabels)
        } else {
            let label = self.label_counter;
            self.label_counter = self.label_counter + 1;
            Ok(label)
        }
    }

    /// Records that the given label stands at the next instruction index.
    fn set_label_position(&mut self, label: usize)
        ensures
            final(self).gen_view() == spec_set_label_position(old(self).gen_view(), label),
    {
        let position = self.opcode_list.len();
        self.label_positions.push((label, position));
    }

    /// Appends a placeholder jump and records it for back-patching.
    fn emit_jump(&mut self, opcode: OpCode, label: usize)
        ensures
            final(self).gen_view() == spec_emit_jump(old(self).gen_view(), op_view(opcode), label),
    {
        let position = self.opcode_list.len();
        proof {
            assert(ops_view(self.opcode_list@.push(opcode)) =~= ops_view(
                self.opcode_list@,
            ).push(op_view(opcode)));
        }
        self.opcode_list.push(opcode);
        self.unresolved_jumps.push((label, position));
    }

    /// Emits one arithmetic operator.
    fn generate_operator(&mut self, operator: Operator)
        ensures
            final(self).gen_view() == spec_gen_operator(old(self).gen_view(), operator),
    {
        match operator {
            Operator::Add => self.emit(OpCode::ADD),
            Operator::Subtract => self.emit(OpCode::SUB),
            Operator::Multiply => self.emit(OpCode::MUL),
            Operator::Divide => self.emit(OpCode::DIV),
        }
    }

    /// Emits one comparator.
    fn generate_comparative_operator(&mut self, operator: ComparativeOperator)
        ensures
            final(self).gen_view() == spec_gen_comparative_operator(
                old(self).gen_view(),
                operator,
            ),
    {
        match operator {
            ComparativeOperator::Equal => self.emit(OpCode::EQUAL),
            ComparativeOperator::NotEqual => self.emit(OpCode::NotEqual),
        }
    }

    /// Emits one expression.
    #[verifier::loop_isolation(false)]
    fn generate_expression(&mut self, expression: &Expression)
        ensures
            final(self).gen_view() == spec_gen_expr(old(self).gen_view(), expr_view(*expression)),
        decreases expression,
    {
        match expression {
            Expression::Integer(value) => self.emit(OpCode::PUSH(*value)),
            Expression::Identifier(name) => self.emit(OpCode::LOAD(name.clone())),
            Expression::ArithmeticExpression { left, operator, right } => {
                self.generate_expression(left);
                self.generate_expression(right);
                self.generate_operator(*operator);
            },
            Expression::FunctionCall { name, arguments } => {
                let ghost g0 = self.gen_view();
                let mut i: usize = 0;
                while i < arguments.len()
                    invariant
                        i <= arguments.len(),
                        self.gen_view() == spec_gen_exprs(
                            g0,
                            exprs_view(arguments@.subrange(0, i as int)),
                        ),
                    decreases arguments.len() - i,
                {
                    self.generate_expression(&arguments[i]);
                    proof {
                        lemma_exprs_view_push(
                            arguments@.subrange(0, i as int),
                            arguments@[i as int],
                        );
                        lemma_gen_exprs_push(
                            g0,
                            exprs_view(arguments@.subrange(0, i as int)),
                            expr_view(arguments@[i as int]),
                        );
                        assert(arguments@.subrange(0, i as int).push(arguments@[i as int]) =~=
                            arguments@.subrange(0, i + 1));
                    }
                    i = i + 1;
                }
                proof {
                    assert(arguments@.subrange(0, arguments@.len() as int) =~= arguments@);
                }
                self.emit(OpCode::CALL(name.clone()));
            },
        }
    }

    /// Emits a condition.
    fn generate_condition(&mut self, condition: &Condition)
        ensures
            final(self).gen_view() == spec_gen_cond(old(self).gen_view(), cond_view(*condition)),
    {
        match condition {
            Condition::Comparison { left, operator, right } => {
                self.generate_expression(left);
                self.generate_expression(right);
                self.generate_comparative_operator(*operator);
            },
        }
    }

    /// Emits one statement.
    #[verifier::loop_isolation(false)]
    #[verifier::rlimit(60)]
    fn generate_statement(&mut self, statement: &Statement) -> (r: Result<(), GenError>)
        ensures
            match r {
                Ok(_) => spec_gen_stmt(old(self).gen_view(), stmt_view(*statement)) == Ok::<
                    GenV,
                    GenError,
                >(final(self).gen_view()),
                Err(e) => spec_gen_stmt(old(self).gen_view(), stmt_view(*statement)) == Err::<
                    GenV,
                    GenError,
                >(e),
            },
        decreases statement, 1int,
    {
        match statement {
            Statement::VariableDeclaration { identifier, value } => {
                self.generate_expression(value);
                self.emit(OpCode::STORE(identifier.clone()));
                Ok(())
            },
            Statement::Assignment { identifier, value } => {
                self.generate_expression(value);
                self.emit(OpCode::STORE(identifier.clone()));
                Ok(())
            },
            Statement::FunctionDeclaration { name, parameters, body, .. } => {
                self.emit(OpCode::DECLARE(name.clone()));
                self.emit(OpCode::ENTER);
                let ghost g2 = self.gen_view();
                proof {
                    assert(parameters@.subrange(0, parameters@.len() as int) =~= parameters@);
                }
                let mut j: usize = parameters.len();
                while j > 0
                    invariant
                        j <= parameters.len(),
                        spec_gen_param_stores(g2, params_view(parameters@)) ==
                            spec_gen_param_stores(
                            self.gen_view(),
                            params_view(parameters@.subrange(0, j as int)),
                        ),
                    decreases j,
                {
                    j = j - 1;
                    proof {
                        lemma_params_view_push(
                            parameters@.subrange(0, j as int),
                            parameters@[j as int],
                        );
                        assert(parameters@.subrange(0, j as int).push(parameters@[j as int]) =~=
                            parameters@.subrange(0, j + 1));
                        let pv1 = params_view(parameters@.subrange(0, j + 1));
                        assert(pv1.subrange(0, pv1.len() - 1) =~= params_view(
                            parameters@.subrange(0, j as int),
                        ));
                    }
                    self.emit(OpCode::STORE(parameters[j].name.clone()));
                }
                proof {
                    assert(parameters@.subrange(0, parameters@.len() as int) =~= parameters@);
                    assert(parameters@.subrange(0, 0) =~= Seq::<Parameter>::empty());
                }
                let is_has_return_statement = body.return_expression.is_some();
                match self.generate_block(body) {
                    Ok(_) => {},
                    Err(e) => return Err(e),
                }
                if !is_has_return_statement {
                    self.emit(OpCode::RET);
                }
                self.emit(OpCode::EXIT);
                Ok(())
            },
            Statement::FunctionCall(e) => {
                self.generate_expression(e);
                Ok(())
            },
            Statement::Print(e) => {
                self.generate_expression(e);
                self.emit(OpCode::PRINT);
                Ok(())
            },
            Statement::IfStatement { condition, then_block, else_block } => {
                self.generate_condition(condition);
                let else_label = match self.get_new_label() {
                    Ok(l) => l,
                    Err(e) => return Err(e),
                };
                let end_label = match self.get_new_label() {
                    Ok(l) => l,
                    Err(e) => return Err(e),
                };
                self.emit_jump(OpCode::JmpIfFalse(0), else_label);
                match self.generate_block(then_block) {
                    Ok(_) => {},
                    Err(e) => return Err(e),
                }
                self.emit_jump(OpCode::JUMP(0), end_label);
                self.set_label_position(else_label);
                match else_block {
                    Some(b) => {
                        match self.generate_block(b) {
                            Ok(_) => {},
                            Err(e) => return Err(e),
                        }
                    },
                    None => {},
                }
                self.set_label_position(end_label);
                Ok(())
            },
        }
    }

    /// Emits a block.
    #[verifier::loop_isolation(false)]
    fn generate_block(&mut self, block: &Block) -> (r: Result<(), GenError>)
        ensures
            match r {
                Ok(_) => spec_gen_block(old(self).gen_view(), block_view(*block)) == Ok::<
                    GenV,
                    GenError,
                >(final(self).gen_view()),
                Err(e) => spec_gen_block(old(self).gen_view(), block_view(*block)) == Err::<
                    GenV,
                    GenError,
                >(e),
            },
        decreases block, 0int,
    {
        let ghost g0 = self.gen_view();
        let mut i: usize = 0;
        while i < block.statements.len()
            invariant
                i <= block.statements.len(),
                spec_gen_stmts(g0, stmts_view(block.statements@.subrange(0, i as int))) == Ok::<
                    GenV,
                    GenError,
                >(self.gen_view()),
            decreases block.statements.len() - i,
        {
            let ghost pre = stmts_view(block.statements@.subrange(0, i as int));
            let r = self.generate_statement(&block.statements[i]);
            proof {
                lemma_stmts_view_push(
                    block.statements@.subrange(0, i as int),
                    block.statements@[i as int],
                );
                lemma_gen_stmts_push(g0, pre, stmt_view(block.statements@[i as int]));
                assert(block.statements@.subrange(0, i as int).push(
                    block.statements@[i as int],
                ) =~= block.statements@.subrange(0, i + 1));
            }
            match r {
                Ok(_) => {},
                Err(e) => {
                    proof {
                        crate::ast::lemma_stmts_view_split(block.statements@, i + 1);
                        lemma_gen_stmts_append_err(
                            g0,
                            stmts_view(block.statements@.subrange(0, i + 1)),
                            stmts_view(
                                block.statements@.subrange(
                                    i + 1,
                                    block.statements@.len() as int,
                                ),
                            ),
                        );
                    }
                    return Err(e);
                },
            }
            i = i + 1;
        }
        proof {
            assert(block.statements@.subrange(0, block.statements@.len() as int) =~= block
                .statements@);
        }
        match &block.return_expression {
            Some(e) => {
                match e {
                    Expression::FunctionCall { name, arguments } => {
                        let ghost g1 = self.gen_view();
                        let mut k: usize = 0;
                        while k < arguments.len()
                            invariant
                                k <= arguments.len(),
                                self.gen_view() == spec_gen_exprs(
                                    g1,
                                    exprs_view(arguments@.subrange(0, k as int)),
                                ),
                            decreases arguments.len() - k,
                        {
                            self.generate_expression(&arguments[k]);
                            proof {
                                lemma_exprs_view_push(
                                    arguments@.subrange(0, k as int),
                                    arguments@[k as int],
                                );
                                lemma_gen_exprs_push(
                                    g1,
                                    exprs_view(arguments@.subrange(0, k as int)),
                                    expr_view(arguments@[k as int]),
                                );
                                assert(arguments@.subrange(0, k as int).push(
                                    arguments@[k as int],
                                ) =~= arguments@.subrange(0, k + 1));
                            }
                            k = k + 1;
                        }
                        proof {
                            assert(arguments@.subrange(0, arguments@.len() as int) =~=
                                arguments@);
                        }
                        self.emit(OpCode::TailCall(name.clone()));
                    },
                    other => {
                        self.generate_expression(other);
                    },
                }
                self.emit(OpCode::RET);
            },
            None => {},
        }
        Ok(())
    }

    /// The position the given label resolved to, the last recorded one
    /// winning.
    #[verifier::loop_isolation(false)]
    fn position_of(&self, label: usize) -> (r: Option<usize>)
        ensures
            r == spec_lookup(self.label_positions@, label),
    {
        proof {
            assert(self.label_positions@.subrange(0, self.label_positions@.len() as int) =~=
                self.label_positions@);
        }
        let mut j: usize = self.label_positions.len();
        while j > 0
            invariant
                j <= self.label_positions@.len(),
                spec_lookup(self.label_positions@, label) == spec_lookup(
                    self.label_positions@.subrange(0, j as int),
                    label,
                ),
            decreases j,
        {
            j = j - 1;
            let entry = self.label_positions[j];
            proof {
                let pre = self.label_positions@.subrange(0, j + 1);
                assert(pre.subrange(0, pre.len() - 1) =~= self.label_positions@.subrange(
                    0,
                    j as int,
                ));
            }
            if entry.0 == label {
                return Some(entry.1);
            }
        }
        proof {
            assert(self.label_positions@.subrange(0, 0) =~= Seq::<(usize, usize)>::empty());
        }
        None
    }

    /// Back-patches every pending jump with its label's resolved position.
    #[verifier::loop_isolation(false)]
    fn resolve_labels(&mut self) -> (r: Result<(), GenError>)
        ensures
            match r {
                Ok(_) => spec_resolve(
                    old(self).gen_view().ops,
                    old(self).gen_view().pending,
                    old(self).gen_view().positions,
                ) == Ok::<Seq<OpV>, GenError>(final(self).gen_view().ops) && final(self).gen_view().pending == Seq::<(usize, usize)>::empty() && final(self).gen_view().positions == old(self).gen_view().positions,
                Err(e) => spec_resolve(
                    old(self).gen_view().ops,
                    old(self).gen_view().pending,
                    old(self).gen_view().positions,
                ) == Err::<Seq<OpV>, GenError>(e),
            },
    {
        let n = self.unresolved_jumps.len();
        proof {
            assert(self.unresolved_jumps@.subrange(0, n as int) =~= self.unresolved_jumps@);
        }
        let mut k: usize = 0;
        while k < n
            invariant
                k <= n,
                n == self.unresolved_jumps@.len(),
                self.unresolved_jumps@ == old(self).unresolved_jumps@,
                self.label_positions@ == old(self).label_positions@,
                self.label_counter == old(self).label_counter,
                spec_resolve(
                    ops_view(old(self).opcode_list@),
                    old(self).unresolved_jumps@,
                    old(self).label_positions@,
                ) == spec_resolve(
                    ops_view(self.opcode_list@),
                    self.unresolved_jumps@.subrange(k as int, n as int),
                    self.label_positions@,
                ),
            decreases n - k,
        {
            let (label, index) = self.unresolved_jumps[k];
            let ghost rest = self.unresolved_jumps@.subrange(k as int, n as int);
            proof {
                assert(rest[0] == (label, index));
                assert(rest.subrange(1, rest.len() as int) =~= self.unresolved_jumps@.subrange(
                    k + 1,
                    n as int,
                ));
            }
            let position = match self.position_of(label) {
                Some(p) => p,
                None => return Err(GenError::UnresolvedLabel { label }),
            };
            if index < self.opcode_list.len() {
                let patched = match &self.opcode_list[index] {
                    OpCode::JUMP(_) => OpCode::JUMP(position),
                    OpCode::JmpIfFalse(_) => OpCode::JmpIfFalse(position),
                    _ => return Err(GenError::UnexpectedOpcode { index }),
                };
                proof {
                    assert(ops_view(self.opcode_list@.update(index as int, patched)) =~=
                        ops_view(self.opcode_list@).update(index as int, op_view(patched)));
                }
                self.opcode_list[index] = patched;
            }
            k = k + 1;
        }
        proof {
            assert(self.unresolved_jumps@.subrange(n as int, n as int) =~= Seq::<
                (usize, usize),
            >::empty());
        }
        self.unresolved_jumps.clear();
        Ok(())
    }

    /// A copy of the emitted instruction list.
    #[verifier::loop_isolation(false)]
    fn clone_ops(&self) -> (r: Vec<OpCode>)
        ensures
            ops_view(r@) == ops_view(self.opcode_list@),
    {
        let mut out: Vec<OpCode> = Vec::new();
        let mut i: usize = 0;
        while i < self.opcode_list.len()
            invariant
                i <= self.opcode_list@.len(),
                out@.len() == i,
                forall|j: int| 0 <= j < i ==> op_view(out@[j]) == op_view(
                    #[trigger] self.opcode_list@[j],
                ),
            decreases self.opcode_list.len() - i,
        {
            let op = match &self.opcode_list[i] {
                OpCode::PUSH(v) => OpCode::PUSH(*v),
                OpCode::PRINT => OpCode::PRINT,
                OpCode::ADD => OpCode::ADD,
                OpCode::SUB => OpCode::SUB,
                OpCode::MUL => OpCode::MUL,
                OpCode::DIV => OpCode::DIV,
                OpCode::STORE(name) => OpCode::STORE(name.clone()),
                OpCode::LOAD(name) => OpCode::LOAD(name.clone()),
                OpCode::DECLARE(name) => OpCode::DECLARE(name.clone()),
                OpCode::TailCall(name) => OpCode::TailCall(name.clone()),
                OpCode::CALL(name) => OpCode::CALL(name.clone()),
                OpCode::RET => OpCode::RET,
                OpCode::ENTER => OpCode::ENTER,
                OpCode::EXIT => OpCode::EXIT,
                OpCode::JUMP(a) => OpCode::JUMP(*a),
                OpCode::JmpIfFalse(a) => OpCode::JmpIfFalse(*a),
                OpCode::EQUAL => OpCode::EQUAL,
                OpCode::NotEqual => OpCode::NotEqual,
            };
            out.push(op);
            i = i + 1;
        }
        proof {
            assert(ops_view(out@) =~= ops_view(self.opcode_list@));
        }
        out
    }

    /// Generates the whole instruction sequence of a program: every
    /// statement in order, then label resolution.
    #[verifier::loop_isolation(false)]
    pub fn generate(&mut self, program: Program) -> (r: Result<Vec<OpCode>, GenError>)
        ensures
            old(self).gen_view() == initial_gen() ==> match r {
                Ok(ops) => spec_generate(program_view(program)) == Ok::<Seq<OpV>, GenError>(
                    ops_view(ops@),
                ),
                Err(e) => spec_generate(program_view(program)) == Err::<Seq<OpV>, GenError>(e),
            },
    {
        let ghost g0 = self.gen_view();
        match program {
            Program::Statements(statements) => {
                let mut i: usize = 0;
                while i < statements.len()
                    invariant
                        i <= statements.len(),
                        spec_gen_stmts(g0, stmts_view(statements@.subrange(0, i as int))) == Ok::<
                            GenV,
                            GenError,
                        >(self.gen_view()),
                    decreases statements.len() - i,
                {
                    let ghost pre = stmts_view(statements@.subrange(0, i as int));
                    let r = self.generate_statement(&statements[i]);
                    proof {
                        lemma_stmts_view_push(
                            statements@.subrange(0, i as int),
                            statements@[i as int],
                        );
                        lemma_gen_stmts_push(g0, pre, stmt_view(statements@[i as int]));
                        assert(statements@.subrange(0, i as int).push(statements@[i as int]) =~=
                            statements@.subrange(0, i + 1));
                    }
                    match r {
                        Ok(_) => {},
                        Err(e) => {
                            proof {
                                crate::ast::lemma_stmts_view_split(statements@, i + 1);
                                lemma_gen_stmts_append_err(
                                    g0,
                                    stmts_view(statements@.subrange(0, i + 1)),
                                    stmts_view(
                                        statements@.subrange(i + 1, statements@.len() as int),
                                    ),
                                );
                            }
                            return Err(e);
                        },
                    }
                    i = i + 1;
                }
                proof {
                    assert(statements@.subrange(0, statements@.len() as int) =~= statements@);
                }
                match self.resolve_labels() {
                    Ok(_) => {},
                    Err(e) => return Err(e),
                }
                Ok(self.clone_ops())
            },
        }
    }
}

} // verus!
