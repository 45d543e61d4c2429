//! A small dynamically typed expression language: a scanner that turns
//! source text into tokens, a precedence-climbing parser that builds an
//! abstract syntax tree while accumulating non-fatal syntax errors, and a
//! tree-walking evaluator that runs the tree against a mutable binding
//! environment.
//!
//! Every stage is specified by a mathematical model of the same pipeline —
//! `scan` and `lex_tokens` for the scanner, the `sp_parse_*` family for the
//! parser, the `sp_eval_*` family for the evaluator — and each executable
//! function is proved to compute exactly what its model says.

pub mod ast;
pub mod environment;
pub mod error;
pub mod eval;
pub mod laws;
pub mod lexer;
pub mod object;
pub mod parser;
pub mod render;
pub mod token;

pub use token::Token;
