//! A small language for combinational logic circuits: a lexer, a
//! recursive-descent parser into a circuit tree, and an evaluator that
//! simulates a circuit over every input assignment.

pub mod text;
pub mod lang;
pub mod ast;
pub mod parser;
pub mod eval;
pub mod table;
pub mod laws;
