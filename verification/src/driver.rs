//! The pipeline: source text through the lexer, parser, constant folder and
//! code generator to bytecode, and on through the virtual machine. Each
//! stage's spec function composes into `spec_compile`, so compiling is a
//! function of the source text alone; running the same source twice
//! therefore yields identical bytecode, identical printed output and
//! identical final variables.

use vstd::prelude::*;

use crate::code_generator::{CodeGenerator, GenError, OpCode, OpV, ops_view, spec_generate};
use crate::lexer::{LexError, Lexer, spec_tokenize};
use crate::optimizer::{Optimizer, fold_stmts};
use crate::parser::{ParseErrV, ParseError, Parser, perr_view, spec_parse_program};
use crate::virtual_machine::{
    MAX_STEPS, RunErrV, RunV, RuntimeError, VirtualMachine, initial_vm, rerr_view, spec_run_n,
};

verus! {

/// A failure of any stage of the pipeline.
#[derive(Debug, PartialEq)]
pub enum PipelineError {
    Lex(LexError),
    Parse(ParseError),
    Generate(GenError),
    Runtime(RuntimeError),
}

/// Ghost mirror of a compile-stage failure.
pub enum PipeErrV {
    Lex(LexError),
    Parse(ParseErrV),
    Generate(GenError),
    Runtime(RunErrV),
}

/// The view of a pipeline failure.
pub open spec fn pipe_err_view(e: PipelineError) -> PipeErrV {
    match e {
        PipelineError::Lex(le) => PipeErrV::Lex(le),
        PipelineError::Parse(pe) => PipeErrV::Parse(perr_view(pe)),
        PipelineError::Generate(ge) => PipeErrV::Generate(ge),
        PipelineError::Runtime(re) => PipeErrV::Runtime(rerr_view(re)),
    }
}

/// The bytecode a source text compiles to: tokens, syntax tree, constant
/// folding, code generation; or the first stage's failure.
pub open spec fn spec_compile(src: Seq<char>) -> Result<Seq<OpV>, PipeErrV> {
    match spec_tokenize(src) {
        Err(e) => Err(PipeErrV::Lex(e)),
        Ok(toks) => match spec_parse_program(toks).0 {
            Err(e) => Err(PipeErrV::Parse(e)),
            Ok(prog) => match spec_generate(fold_stmts(prog)) {
                Err(e) => Err(PipeErrV::Generate(e)),
                Ok(ops) => Ok(ops),
            },
        },
    }
}

/// Compiles source text to bytecode: exactly `spec_compile` of the text.
pub fn compile(source: &str) -> (r: Result<Vec<OpCode>, PipelineError>)
    ensures
        match r {
            Ok(ops) => spec_compile(source@) == Ok::<Seq<OpV>, PipeErrV>(ops_view(ops@)),
            Err(e) => spec_compile(source@) == Err::<Seq<OpV>, PipeErrV>(pipe_err_view(e)),
        },
{
    let tokens = match Lexer::tokenize(source) {
        Ok(ts) => ts,
        Err(e) => return Err(PipelineError::Lex(e)),
    };
    let mut parser = Parser::new(tokens);
    let program = match parser.parse() {
        Ok(p) => p,
        Err(e) => return Err(PipelineError::Parse(e)),
    };
    let optimized = Optimizer::optimize_ast(program);
    let mut code_generator = CodeGenerator::new();
    match code_generator.generate(optimized) {
        Ok(ops) => Ok(ops),
        Err(e) => Err(PipelineError::Generate(e)),
    }
}

/// Compiles and runs a source text, yielding the finished machine: its
/// output list and final variables are `spec_run_n` of `spec_compile` of
/// the text alone, so two runs of the same text cannot differ.
pub fn run_source(source: &str) -> (r: Result<VirtualMachine, PipelineError>)
    ensures
        ({
            let c = spec_compile(source@);
            match r {
                Ok(vm) => match c {
                    Ok(ops) => vm.code() == ops && (exists|m: nat|
                        spec_run_n(ops, initial_vm(), m) == RunV::Done(vm.vm_view())),
                    Err(_) => false,
                },
                Err(e) => match e {
                    PipelineError::Runtime(re) => match c {
                        Ok(ops) => (exists|m: nat|
                            spec_run_n(ops, initial_vm(), m) == RunV::Failed(rerr_view(re))) || (
                        re == RuntimeError::StepLimitExceeded && spec_run_n(
                            ops,
                            initial_vm(),
                            MAX_STEPS as nat,
                        ) is Running),
                        Err(_) => false,
                    },
                    _ => c == Err::<Seq<OpV>, PipeErrV>(pipe_err_view(e)),
                },
            }
        }),
{
    let opcodes = match compile(source) {
        Ok(ops) => ops,
        Err(e) => return Err(e),
    };
    let mut vm = VirtualMachine::new(opcodes);
    match vm.run() {
        Ok(_) => Ok(vm),
        Err(e) => Err(PipelineError::Runtime(e)),
    }
}

} // verus!
