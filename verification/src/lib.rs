//! A compiler and stack virtual machine for a small imperative language:
//! a lexer, a recursive-descent parser, a constant-folding optimizer, a
//! bytecode generator with label back-patching, and a frame-based virtual
//! machine with tail-call frame reuse.

pub mod ast;
pub mod lexer;
pub mod parser;
pub mod optimizer;
pub mod code_generator;
pub mod table;
pub mod virtual_machine;
pub mod driver;
