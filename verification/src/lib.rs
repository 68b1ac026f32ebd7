//! A tiny line-oriented scripting language: a tokenizer that turns source
//! text into a flat token sequence, and an engine that executes that sequence
//! directly, one statement at a time, over an explicit instruction pointer.

pub mod chars;
pub mod decimal;
pub mod environment;
pub mod error;
pub mod interpreter;
pub mod lexer;
pub mod semantics;
pub mod text;
pub mod token;
pub mod value;
