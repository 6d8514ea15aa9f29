//! A small stack-based bytecode interpreter: a line-oriented assembler
//! and an execution engine, both specified and verified.
pub mod bytecode;
pub mod interpreter;
pub mod laws;
pub mod parser;
