//! Mamba: an indentation-structured language compiled to textual LLVM IR.
//!
//! The pipeline is lexer, Pratt parser, and IR generator.
pub mod codegen;
pub mod error;
pub mod irgen;
pub mod lexer;
pub mod output;
pub mod parser;
pub mod text;
pub mod types;

pub use output::{MambaOutput, MambaProblem, MambaResult, TokenOutput, lex_result};
