# lalrpop

Two parts of a parser generator, verified with Verus.

- `src/codegen` compiles an LR(1) automaton to a parser in which every state is a
  function, the parse stack is an explicit vector of values with continuations,
  and every transition is a call in tail position. Each function that writes code
  states exactly which lines it writes. `codegen/structure.rs`, `codegen/arms.rs`
  and `codegen/names.rs` prove how the generated module hangs together.
  `codegen/machine.rs` models what the generated functions do. It proves that the
  model parses as the automaton of `automaton.rs` does, if no state has conflicting
  reductions, and that the code for each step of the model is in the generated
  module. What that code means in Rust is not part of the proof.
- `src/stack.rs` is a stack that holds values of different types, each with the
  two locations that it spans. `src/value.rs` holds the types that it takes by
  default.

`src/grammar.rs` and `src/lr1.rs` are what parsers are generated from: names and
types are interned, as positions in ordered tables.

`app` writes the generated code to a writer, and has a stack that prints what it
does.
