//! A small compiler front- and middle-end: lexer, Pratt parser, scoped
//! symbol tables, a scope-correctness checker, and an SSA-style IR
//! builder, with machine-checked contracts for each stage.

pub mod ast;
pub mod chars;
pub mod error;
pub mod ir;
pub mod lexer;
pub mod parser;
pub mod resolve;
pub mod symbol_table;
pub mod token;
