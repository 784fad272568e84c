//! Two parts of a parser generator: the compiler from an LR(1) automaton to a
//! tail-calling parser, and a stack for values of different types.
pub mod sequences;
pub mod text;
pub mod grammar;
pub mod lr1;
pub mod automaton;
pub mod rust_write;
pub mod codegen;
pub mod stack;
pub mod value;
