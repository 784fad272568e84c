//! A compiler from an LR(1) table to a tail-calling recursive ascent parser,
//! sometimes called a "recursive ascent pushdown" or defunctionalized-CPS
//! formulation of LR parsing.
//!
//! Each LR state is compiled to its own function, so being "in" a state means
//! the program counter is inside that state's function and the ACTION dispatch
//! is just the `match` on the lookahead. State functions never return to their
//! caller to deliver a nonterminal. Instead:
//!
//! * The parse stack is an explicit `Vec` of `(spanned symbol, continuation)`
//!   entries carried in a `Parser` struct. The continuation stored alongside a
//!   symbol is the GOTO row -- as a function pointer -- of the state that
//!   pushed the symbol (i.e. the state that is exposed if a reduction pops
//!   down to that symbol).
//!
//! * Every transition (shift, reduce dispatch, goto) is a call in tail
//!   position with the exact same signature, so the native call stack does
//!   not need to grow at all: a reduction pops its handle from the explicit
//!   stack, runs the action code, and transfers control to the continuation
//!   found on the deepest popped entry.
//!
//! * All parser functions take `(user parameters.., &mut Parser)` and return
//!   `()`; the lookahead and the final result are fields of the `Parser`
//!   struct.
//!
//! All transitions are wrapped in a generated `transition!` macro. By default
//! it expands to a plain `return f(...)`; under `--cfg lalrpop_tail_call_become`
//! it expands to `become f(...)`.
//!
//! Error recovery (the `!` symbol) is not supported.
pub mod input;
pub mod check;
pub mod filter;
pub mod generator;
pub mod decls;
pub mod reduce;
pub mod groups;
pub mod comments;
pub mod states;
pub mod tail_call;
pub mod names;
pub mod signatures;
pub mod variants;
pub mod dispatch;
pub mod reductions;
pub mod structure;
pub mod arms;
pub mod machine;
