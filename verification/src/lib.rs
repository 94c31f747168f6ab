//! The front and middle end of a small statically-typed procedural
//! language: lexing of source text into tokens, a symbol table with
//! lexical scoping, a type checker that annotates every expression with a
//! resolved type and narrows literals, and a lowering pass that expands
//! the operators the back end does not take. Every pass is specified
//! against a mathematical model of its data and verified against it.

pub mod ast;
pub mod checker;
pub mod lexer;
pub mod lower;
pub mod strutil;
pub mod symbol;
pub mod symbol_table;
pub mod types;
