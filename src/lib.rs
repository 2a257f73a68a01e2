//! A runtime for a small line-oriented scripting language: a tokenizer, a
//! value classifier, a program loader that splits a program into labelled
//! blocks, and an execution machine that performs one instruction per step.

pub mod ast;
pub mod errors;
pub mod instructions;
pub mod laws;
pub mod lexer;
pub mod machine;
pub mod pattern;
pub mod program;
pub mod text;
pub mod variables;
