//! A compiler for a small C-like expression and control-flow language.
//!
//! The pipeline turns source text into x86-64 assembly (Intel syntax):
//! a maximal-munch tokenizer, a recursive-descent parser that resolves
//! precedence and assigns stack slots and labels, and a stack-machine
//! code generator wrapping the body in a fixed frame.

pub mod ast;
pub mod codegen;
pub mod compile;
pub mod decimal;
pub mod error;
pub mod parser;
pub mod token;
pub mod tokenizer;
