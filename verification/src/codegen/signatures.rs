//! The signatures and types of the generated code agree: what is called with what
//! is declared to take it, and what is stored where it is declared to be held.
use crate::codegen::input::{Function, Input};
use crate::grammar::{Symbol, TerminalString, TypeParameter};
use crate::lr1::StateIndex;
use crate::rust_write::{fn_header, listed};
use crate::text::{decimal, join, Line};
use vstd::prelude::*;

verus! {

impl<'a, 'grammar> Input<'a, 'grammar> {
    /// The tokens come from an iterator over spanned tokens and parse errors.
    pub proof fn law_tokens_bound(self)
        ensures
            ({
                let p = self.grammar.prefix@;
                let types = self.grammar.types;
                let loc = types.all@[types.terminal_loc_type.0 as int].text@;
                let token = types.all@[types.terminal_token_type.0 as int].text@;
                let error = types.all@[types.parse_error_type.0 as int].text@;
                let triple = "("@ + loc + ", "@ + token + ", "@ + loc + ")"@;
                self.tokens_bound_text() == p + "TOKENS: Iterator<Item = Result<"@ + triple
                    + ", "@ + error + ">>"@
            }),
    {
    }

    /// The generated functions and types have the grammar's type parameters, in
    /// order, and the token iterator behind them. The types have the grammar's
    /// where clauses.
    pub proof fn law_type_parameter_lists(self)
        ensures
            ({
                let p = self.grammar.prefix@;
                let names = Seq::new(
                    self.grammar.type_parameters@.len(),
                    |i: int|
                        match self.grammar.type_parameters@[i] {
                            TypeParameter::Lifetime(name) => name@,
                            TypeParameter::Id(name) => name@,
                        },
                );
                let clauses = Seq::new(
                    self.grammar.where_clauses@.len(),
                    |i: int| self.grammar.where_clauses@[i].text@,
                );
                &&& self.fn_type_parameters() == names.push(self.tokens_bound_text())
                &&& self.type_decls() == join(", "@, names.push(self.tokens_bound_text()))
                &&& self.type_args() == join(", "@, names.push(p + "TOKENS"@))
                &&& self.type_where() == join(", "@, clauses)
            }),
    {
        let names = Seq::new(
            self.grammar.type_parameters@.len(),
            |i: int|
                match self.grammar.type_parameters@[i] {
                    TypeParameter::Lifetime(name) => name@,
                    TypeParameter::Id(name) => name@,
                },
        );
        let clauses = Seq::new(
            self.grammar.where_clauses@.len(),
            |i: int| self.grammar.where_clauses@[i].text@,
        );
        assert(self.grammar.type_parameter_names() =~= names);
        assert(self.grammar.where_clause_texts() =~= clauses);
    }

    /// The lines of a function's header between its name and its body, without the
    /// return type: what a function that takes `parameters` looks like.
    pub proof fn lemma_header(
        self,
        name: Line,
        type_parameters: Seq<Line>,
        parameters: Seq<Line>,
        result: Line,
    )
        ensures
            fn_header(
                name,
                type_parameters,
                parameters,
                result,
                self.grammar.where_clause_texts(),
            ) == seq!["fn "@ + name + "<"@]
                + Seq::new(type_parameters.len(), |i: int| type_parameters[i] + ","@)
                + seq![">("@] + Seq::new(parameters.len(), |i: int| parameters[i] + ","@)
                + seq![") -> "@ + result] + if self.grammar.where_clauses@.len() == 0 {
                seq![]
            } else {
                seq!["where"@] + Seq::new(
                    self.grammar.where_clauses@.len(),
                    |i: int| self.grammar.where_clauses@[i].text@ + ","@,
                )
            },
    {
        let clauses = self.grammar.where_clause_texts();
        assert(listed(type_parameters) =~= Seq::new(
            type_parameters.len(),
            |i: int| type_parameters[i] + ","@,
        ));
        assert(listed(parameters) =~= Seq::new(
            parameters.len(),
            |i: int| parameters[i] + ","@,
        ));
        assert(listed(clauses) =~= Seq::new(
            self.grammar.where_clauses@.len(),
            |i: int| self.grammar.where_clauses@[i].text@ + ","@,
        ));
    }

    /// A parser function takes the user's parameters, each with its name and type,
    /// and the parser, and returns nothing. It has the type parameters of all
    /// generated functions and the grammar's where clauses, and is never inlined.
    /// Continuations are functions that take the same types.
    pub proof fn law_parser_functions_take(self, name: Line)
        ensures
            ({
                let p = self.grammar.prefix@;
                let args = self.type_args();
                let n = self.grammar.parameters@.len();
                let types = self.grammar.types.all@;
                let parameter_types = Seq::new(
                    n,
                    |i: int| types[self.grammar.parameters@[i].ty.0 as int].text@,
                ).push("&mut "@ + p + "Parser<"@ + args + ">"@);
                let names = Seq::new(n, |i: int| self.grammar.parameters@[i].name@).push(
                    p + "parser"@,
                );
                let type_parameters = self.fn_type_parameters();
                &&& self.parser_fn_header(name) == seq![
                    "#[inline(never)]"@,
                    "fn "@ + name + "<"@,
                ] + Seq::new(type_parameters.len(), |i: int| type_parameters[i] + ","@) + seq![
                    ">("@,
                ] + Seq::new(n + 1, |i: int| names[i] + ": "@ + parameter_types[i] + ","@) + seq![
                    ") -> ()"@,
                ] + (if self.grammar.where_clauses@.len() == 0 {
                    seq![]
                } else {
                    seq!["where"@] + Seq::new(
                        self.grammar.where_clauses@.len(),
                        |i: int| self.grammar.where_clauses@[i].text@ + ","@,
                    )
                }) + seq!["{"@]
                &&& self.fn_params() == join(", "@, parameter_types)
            }),
    {
        let p = self.grammar.prefix@;
        let args = self.type_args();
        let n = self.grammar.parameters@.len();
        let types = self.grammar.types.all@;
        let parser = p + "parser: &mut "@ + p + "Parser<"@ + args + ">"@;
        let parser_type = "&mut "@ + p + "Parser<"@ + args + ">"@;
        let parameter_types = Seq::new(
            n,
            |i: int| types[self.grammar.parameters@[i].ty.0 as int].text@,
        ).push(parser_type);
        let names = Seq::new(n, |i: int| self.grammar.parameters@[i].name@).push(p + "parser"@);
        let parameters = self.grammar.parameter_decls().push(parser);
        reveal_strlit("parser: &mut ");
        reveal_strlit("parser");
        reveal_strlit(": ");
        reveal_strlit("&mut ");
        reveal_strlit(") -> ");
        reveal_strlit("()");
        reveal_strlit(") -> ()");
        assert(parser =~= p + "parser"@ + ": "@ + parser_type);
        assert(") -> "@ + "()"@ =~= ") -> ()"@);
        self.lemma_header(name, self.fn_type_parameters(), parameters, "()"@);
        assert(Seq::new(parameters.len(), |i: int| parameters[i] + ","@) =~= Seq::new(
            n + 1,
            |i: int| names[i] + ": "@ + parameter_types[i] + ","@,
        ));
        assert(self.grammar.parameter_types().push(parser_type) =~= parameter_types);
        let where_lines = if self.grammar.where_clauses@.len() == 0 {
            seq![]
        } else {
            seq!["where"@] + Seq::new(
                self.grammar.where_clauses@.len(),
                |i: int| self.grammar.where_clauses@[i].text@ + ","@,
            )
        };
        assert(self.parser_fn_header(name) =~= seq![
            "#[inline(never)]"@,
            "fn "@ + name + "<"@,
        ] + Seq::new(
            self.fn_type_parameters().len(),
            |i: int| self.fn_type_parameters()[i] + ","@,
        ) + seq![">("@] + Seq::new(
            n + 1,
            |i: int| names[i] + ": "@ + parameter_types[i] + ","@,
        ) + seq![") -> ()"@] + where_lines + seq!["{"@]);
    }

    /// Every transition is a call with one argument for each parameter that parser
    /// functions take, in their order: the user's parameters, then the parser.
    pub proof fn law_transitions_pass_parameters(self, function: Line)
        ensures
            ({
                let p = self.grammar.prefix@;
                let arguments = join(
                    ", "@,
                    Seq::new(
                        self.grammar.parameters@.len(),
                        |i: int| self.grammar.parameters@[i].name@,
                    ).push(p + "parser"@),
                );
                self.transition(function) == p + "transition!("@ + function + "("@ + arguments
                    + "))"@
            }),
    {
        let p = self.grammar.prefix@;
        let refs = self.grammar.user_refs();
        self.grammar.law_user_refs(p + "parser"@);
        reveal_strlit("parser))");
        reveal_strlit("parser");
        reveal_strlit("))");
        let head = p + "transition!("@ + function + "("@;
        assert(head + refs + p + "parser))"@ =~= head + (refs + (p + "parser"@)) + "))"@);
    }

    /// The entry point enters the function of state 0 with one argument for each
    /// parameter that parser functions take, in their order: the user's
    /// parameters, then the parser.
    pub proof fn law_entry_passes_parameters(self)
        ensures
            ({
                let p = self.grammar.prefix@;
                let arguments = join(
                    ", "@,
                    Seq::new(
                        self.grammar.parameters@.len(),
                        |i: int| self.grammar.parameters@[i].name@,
                    ).push("&mut "@ + p + "parser"@),
                );
                let name = self.function_name(Function::State(0));
                self.parser_fn_body()[9] == name + "("@ + arguments + ");"@
            }),
    {
        let p = self.grammar.prefix@;
        let refs = self.grammar.user_refs();
        let parser = "&mut "@ + p + "parser"@;
        self.grammar.law_user_refs(parser);
        reveal_strlit("state0(");
        reveal_strlit("state");
        reveal_strlit("(");
        reveal_strlit("parser);");
        reveal_strlit("parser");
        reveal_strlit(");");
        assert(decimal(0) =~= seq!['0']);
        let name = self.function_name(Function::State(0));
        assert(p + "state0("@ =~= name + "("@);
        assert(p + "state0("@ + refs + "&mut "@ + p + "parser);"@ =~= name + "("@ + (refs + parser)
            + ");"@);
    }

    /// The phantom type and the phantom value have one member for each type
    /// parameter, in order: where the type mentions a lifetime, the value has a
    /// reference; a type stands for itself in both.
    pub proof fn law_phantom_members(self)
        ensures
            ({
                let n = self.grammar.type_parameters@.len();
                let types = join(
                    ", "@,
                    Seq::new(
                        n,
                        |i: int|
                            match self.grammar.type_parameters@[i] {
                                TypeParameter::Lifetime(name) => "&"@ + name@ + " ()"@,
                                TypeParameter::Id(name) => name@,
                            },
                    ),
                );
                let values = join(
                    ", "@,
                    Seq::new(
                        n,
                        |i: int|
                            match self.grammar.type_parameters@[i] {
                                TypeParameter::Lifetime(_) => "&()"@,
                                TypeParameter::Id(name) => name@,
                            },
                    ),
                );
                &&& self.phantom_type() == "core::marker::PhantomData<("@ + types + ")>"@
                &&& self.phantom_expr() == "core::marker::PhantomData::<("@ + values + ")>"@
            }),
    {
        assert(self.phantom_types() =~= Seq::new(
            self.grammar.type_parameters@.len(),
            |i: int|
                match self.grammar.type_parameters@[i] {
                    TypeParameter::Lifetime(name) => "&"@ + name@ + " ()"@,
                    TypeParameter::Id(name) => name@,
                },
        ));
        assert(self.phantom_exprs() =~= Seq::new(
            self.grammar.type_parameters@.len(),
            |i: int|
                match self.grammar.type_parameters@[i] {
                    TypeParameter::Lifetime(_) => "&()"@,
                    TypeParameter::Id(name) => name@,
                },
        ));
    }

    /// Whoever fetches the next token passes the parser's tokens and the phantom
    /// value, as the function takes the tokens and a value of the phantom type. It
    /// hands out the iterator's items, errors and end as they come.
    pub proof fn law_next_token(self, state: int, t: TerminalString, target: StateIndex)
        ensures
            ({
                let p = self.grammar.prefix@;
                let name = self.function_name(Function::NextToken);
                let values = self.phantom_expr();
                let types = self.phantom_type();
                let triple = self.grammar.types.triple();
                let error = self.grammar.types.error();
                let type_parameters = self.fn_type_parameters();
                let call = name + "(&mut "@ + p + "parser."@ + p + "tokens, "@ + values + ")"@;
                &&& self.shift_arm(state, t, target)[3] == "match "@ + call + " {"@
                &&& self.parser_fn_body()[8] == p + "parser."@ + p + "lookahead = "@ + call
                    + "?;"@
                &&& self.helper_fns() == seq!["fn "@ + name + "<"@] + Seq::new(
                    type_parameters.len(),
                    |i: int| type_parameters[i] + ","@,
                ) + seq![
                    ">("@,
                    p + "tokens: &mut "@ + p + "TOKENS,"@,
                    "_: "@ + types + ","@,
                    ") -> Result<Option<"@ + triple + ">, "@ + error + ">"@,
                ] + (if self.grammar.where_clauses@.len() == 0 {
                    seq![]
                } else {
                    seq!["where"@] + Seq::new(
                        self.grammar.where_clauses@.len(),
                        |i: int| self.grammar.where_clauses@[i].text@ + ","@,
                    )
                }) + seq![
                    "{"@,
                    "match "@ + p + "tokens.next() {"@,
                    "Some(Ok("@ + p + "v)) => Ok(Some("@ + p + "v)),"@,
                    "Some(Err("@ + p + "e)) => Err("@ + p + "e),"@,
                    "None => Ok(None),"@,
                    "}"@,
                    "}"@,
                    ""@,
                    "#[inline(never)]"@,
                    "#[allow(dead_code)]"@,
                    "fn "@ + p + "symbol_type_mismatch() -> ! {"@,
                    "panic!(\"symbol type mismatch\")"@,
                    "}"@,
                ]
            }),
    {
        self.lemma_next_token_calls(state, t, target);
        self.lemma_next_token_header();
    }

    proof fn lemma_next_token_calls(self, state: int, t: TerminalString, target: StateIndex)
        ensures
            ({
                let p = self.grammar.prefix@;
                let name = self.function_name(Function::NextToken);
                let values = self.phantom_expr();
                let call = name + "(&mut "@ + p + "parser."@ + p + "tokens, "@ + values + ")"@;
                &&& self.shift_arm(state, t, target)[3] == "match "@ + call + " {"@
                &&& self.parser_fn_body()[8] == p + "parser."@ + p + "lookahead = "@ + call
                    + "?;"@
            }),
    {
        let p = self.grammar.prefix@;
        let name = self.function_name(Function::NextToken);
        let values = self.phantom_expr();
        let call = name + "(&mut "@ + p + "parser."@ + p + "tokens, "@ + values + ")"@;
        reveal_strlit("next_token");
        reveal_strlit("next_token(&mut ");
        reveal_strlit("(&mut ");
        reveal_strlit(")");
        reveal_strlit(" {");
        reveal_strlit(") {");
        reveal_strlit("?;");
        reveal_strlit(")?;");
        assert(self.shift_arm(state, t, target)[3] =~= "match "@ + call + " {"@);
        assert(self.parser_fn_body()[8] =~= p + "parser."@ + p + "lookahead = "@ + call + "?;"@);
    }

    proof fn lemma_next_token_header(self)
        ensures
            ({
                let p = self.grammar.prefix@;
                let name = self.function_name(Function::NextToken);
                let types = self.phantom_type();
                let triple = self.grammar.types.triple();
                let error = self.grammar.types.error();
                let type_parameters = self.fn_type_parameters();
                self.next_token_header() == seq!["fn "@ + name + "<"@] + Seq::new(
                    type_parameters.len(),
                    |i: int| type_parameters[i] + ","@,
                ) + seq![
                    ">("@,
                    p + "tokens: &mut "@ + p + "TOKENS,"@,
                    "_: "@ + types + ","@,
                    ") -> Result<Option<"@ + triple + ">, "@ + error + ">"@,
                ] + (if self.grammar.where_clauses@.len() == 0 {
                    seq![]
                } else {
                    seq!["where"@] + Seq::new(
                        self.grammar.where_clauses@.len(),
                        |i: int| self.grammar.where_clauses@[i].text@ + ","@,
                    )
                })
            }),
    {
        let p = self.grammar.prefix@;
        let name = self.function_name(Function::NextToken);
        let types = self.phantom_type();
        let triple = self.grammar.types.triple();
        let error = self.grammar.types.error();
        let result = "Result<Option<"@ + triple + ">, "@ + error + ">"@;
        let parameters = seq![
            p + "tokens: &mut "@ + p + "TOKENS"@,
            "_: "@ + types,
        ];
        self.lemma_header(name, self.fn_type_parameters(), parameters, result);
        reveal_strlit("TOKENS");
        reveal_strlit("TOKENS,");
        reveal_strlit(",");
        reveal_strlit(") -> ");
        reveal_strlit("Result<Option<");
        reveal_strlit(") -> Result<Option<");
        assert(parameters[0] + ","@ =~= p + "tokens: &mut "@ + p + "TOKENS,"@);
        assert(") -> "@ + result =~= ") -> Result<Option<"@ + triple + ">, "@ + error + ">"@);
        assert(seq![">("@] + Seq::new(2, |i: int| parameters[i] + ","@) + seq![
            ") -> "@ + result,
        ] =~= seq![
            ">("@,
            p + "tokens: &mut "@ + p + "TOKENS,"@,
            "_: "@ + types + ","@,
            ") -> Result<Option<"@ + triple + ">, "@ + error + ">"@,
        ]);
        let first = seq!["fn "@ + name + "<"@] + Seq::new(
            self.fn_type_parameters().len(),
            |i: int| self.fn_type_parameters()[i] + ","@,
        );
        let middle = Seq::new(2, |i: int| parameters[i] + ","@);
        assert(first + seq![">("@] + middle + seq![") -> "@ + result] =~= first + (seq![">("@]
            + middle + seq![") -> "@ + result]));
    }

    /// The transition macro becomes a guaranteed tail call under the flag, and a
    /// plain return without it.
    pub proof fn law_transition_macro(self)
        ensures
            ({
                let p = self.grammar.prefix@;
                self.transition_macro() == seq![
                    "// Every state/goto/reduce transition below is in"@,
                    "// tail position and shares one signature. With"@,
                    "// `--cfg "@ + "lalrpop_tail_call_become"@ + "` (nightly, requires the crate"@,
                    "// to enable `#![feature(explicit_tail_calls)]`), transitions"@,
                    "// use `become` and the parser is guaranteed to use O(1) native"@,
                    "// stack. Otherwise they are sibling calls that LLVM turns into"@,
                    "// jumps in optimized builds."@,
                    "#[allow(unused_macros)]"@,
                    "#[cfg("@ + "lalrpop_tail_call_become"@ + ")]"@,
                    "macro_rules! "@ + p + "transition { ($call:expr) => { become $call }; }"@,
                    "#[allow(unused_macros)]"@,
                    "#[cfg(not("@ + "lalrpop_tail_call_become"@ + "))]"@,
                    "macro_rules! "@ + p + "transition { ($call:expr) => { return $call }; }"@,
                    ""@,
                ]
            }),
    {
    }

    /// The parse stack holds spanned symbols with continuations; a parse yields the
    /// value of the start symbol or a parse error.
    pub proof fn law_parser_types(self)
        ensures
            ({
                let p = self.grammar.prefix@;
                let types = self.grammar.types;
                let loc = types.all@[types.terminal_loc_type.0 as int].text@;
                let error = types.all@[types.parse_error_type.0 as int].text@;
                let start = types.nonterminal_types@[self.start_symbol.0 as int];
                let value = types.all@[start.0 as int].text@;
                let parameters = join(", "@, self.symbol_parameters());
                let args = self.type_args();
                let symbol = "("@ + loc + ", "@ + p + "Symbol<"@ + parameters + ">, "@ + loc
                    + ")"@;
                &&& self.spanned_symbol() == symbol
                &&& self.stack_type() == "alloc::vec::Vec<("@ + symbol + ", "@ + p + "Goto<"@
                    + args + ">)>"@
                &&& self.result_text() == "Result<"@ + value + ", "@ + error + ">"@
            }),
    {
    }

    /// The type of continuations wraps a function that takes what parser functions
    /// take, and can be copied.
    pub proof fn law_continuation_type(self)
        ensures
            ({
                let p = self.grammar.prefix@;
                let decls = self.type_decls();
                let args = self.type_args();
                let clauses = self.type_where();
                let params = self.fn_params();
                self.goto_type_defn() == seq![
                    "struct "@ + p + "Goto<"@ + decls + ">(fn("@ + params + ")) where "@
                        + clauses + ";"@,
                    "impl<"@ + decls + "> Copy for "@ + p + "Goto<"@ + args + "> where "@
                        + clauses + " {}"@,
                    "impl<"@ + decls + "> Clone for "@ + p + "Goto<"@ + args + "> where "@
                        + clauses + " { fn clone(&self) -> Self { *self } }"@,
                ]
            }),
    {
    }

    /// The entry point fills in each field that the parser has, with a value of the
    /// field's type: the tokens, no lookahead yet, an empty stack, no nonterminal
    /// and no result. It fetches the first token, enters state 0, and hands out the
    /// result.
    pub proof fn law_entry_fills_fields(self)
        ensures
            ({
                let p = self.grammar.prefix@;
                let decls = self.type_decls();
                let clauses = self.type_where();
                let triple = self.grammar.types.triple();
                let stack = self.stack_type();
                let result = self.result_text();
                let types = self.phantom_type();
                let values = self.phantom_expr();
                let body = self.parser_fn_body();
                &&& self.parser_type_defn() == seq![
                    "struct "@ + p + "Parser<"@ + decls + "> where "@ + clauses + " {"@,
                    p + "tokens: "@ + p + "TOKENS,"@,
                    p + "lookahead: Option<"@ + triple + ">,"@,
                    p + "stack: "@ + stack + ","@,
                    p + "reduced_nt: usize,"@,
                    p + "result: Option<"@ + result + ">,"@,
                    p + "phantom: "@ + types + ","@,
                    "}"@,
                ]
                &&& body.len() == 11
                &&& body.take(8) == seq![
                    "let mut "@ + p + "parser = "@ + p + "Parser {"@,
                    p + "tokens,"@,
                    p + "lookahead: None,"@,
                    p + "stack: alloc::vec::Vec::with_capacity(16),"@,
                    p + "reduced_nt: 0,"@,
                    p + "result: None,"@,
                    p + "phantom: "@ + values + ","@,
                    "};"@,
                ]
                &&& body[10] == p + "parser."@ + p
                    + "result.expect(\"tail call parser did not produce a result\")"@
            }),
    {
        let p = self.grammar.prefix@;
        let values = self.phantom_expr();
        assert(self.parser_fn_body().take(8) =~= seq![
            "let mut "@ + p + "parser = "@ + p + "Parser {"@,
            p + "tokens,"@,
            p + "lookahead: None,"@,
            p + "stack: alloc::vec::Vec::with_capacity(16),"@,
            p + "reduced_nt: 0,"@,
            p + "result: None,"@,
            p + "phantom: "@ + values + ","@,
            "};"@,
        ]);
    }

    /// The name of a function is its purpose and its number.
    pub proof fn law_function_names(self, i: nat)
        ensures
            ({
                let p = self.grammar.prefix@;
                let index = decimal(i);
                &&& self.function_name(Function::State(i)) == p + "state"@ + index
                &&& self.function_name(Function::Goto(i)) == p + "goto"@ + index
                &&& self.function_name(Function::Reduce(i)) == p + "reduce"@ + index
                &&& self.function_name(Function::CallAction(i)) == p + "call_action"@ + index
                &&& self.function_name(Function::Pop(i)) == p + "pop_"@ + ("Variant"@ + index)
                &&& self.function_name(Function::NextToken) == p + "next_token"@
                &&& self.state_name(i) == self.function_name(Function::State(i))
                &&& self.goto_name(i) == self.function_name(Function::Goto(i))
            }),
    {
    }
}

} // verus!
