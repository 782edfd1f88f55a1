//! An interpreter core for a small register-and-tape language: one optional
//! accumulator, a sparse tape of signed cells, a code cursor, a data cursor
//! with a reversible direction, and bracket-style conditionals.

pub mod diagnostics;
pub mod engine;
pub mod errors;
pub mod lexer;
pub mod lines;
pub mod machine;
pub mod memory;
