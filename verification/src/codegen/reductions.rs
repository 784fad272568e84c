//! What a reduction does: it takes the values of its handle off the stack, runs the
//! action code on them, and stores the result, so that each value keeps its type,
//! its place and its locations.
use crate::codegen::input::{Function, Input};
use crate::grammar::{ProductionView, Symbol};
use crate::sequences::{increasing, lemma_pick};
use crate::text::{decimal, join, Line};
use vstd::prelude::*;

verus! {

impl<'a, 'grammar> Input<'a, 'grammar> {
    /// A handle is popped from its last symbol to its first, each by the function
    /// for the variant `variants[i]` that is declared for the symbol's type, and
    /// bound by its position. The continuation of the first one is kept if it is
    /// wanted; no other is. The handle spans from the start of its first symbol to
    /// the end of its last.
    pub proof fn law_pop_handle(
        self,
        production: ProductionView,
        bind_goto: bool,
        variants: Seq<int>,
    )
        requires
            production.symbols.len() > 0,
            variants.len() == production.symbols.len(),
            forall|i: int|
                0 <= i < variants.len() ==> {
                    &&& 0 <= #[trigger] variants[i] < self.variant_types().len()
                    &&& self.variant_types()[variants[i]] == self.grammar.types.type_of(
                        production.symbols[i],
                    )
                },
        ensures
            ({
                let p = self.grammar.prefix@;
                let n = production.symbols.len();
                let count = decimal(n);
                let last = decimal((n - 1) as nat);
                self.pop_handle(production, bind_goto) == (if n == 1 {
                    seq![]
                } else {
                    seq![
                        "assert!("@ + p + "parser."@ + p + "stack.len() >= "@ + count + ");"@,
                    ]
                }) + Seq::new(
                    n,
                    |k: int|
                        "let ("@ + (p + "sym"@ + decimal((n - 1 - k) as nat)) + ", "@ + (if bind_goto
                            && k == n - 1 {
                            p + "goto"@
                        } else {
                            "_"@
                        }) + ") = "@ + (p + "pop_"@ + ("Variant"@ + decimal(
                            variants[n - 1 - k] as nat,
                        ))) + "(&mut "@ + p + "parser."@ + p + "stack);"@,
                ) + seq![
                    "let "@ + p + "start = "@ + p + "sym0.0.clone();"@,
                    "let "@ + p + "end = "@ + (p + "sym"@ + last) + ".2.clone();"@,
                ]
            }),
    {
        let p = self.grammar.prefix@;
        let n = production.symbols.len();
        let pops = Seq::new(
            n,
            |k: int|
                "let ("@ + (p + "sym"@ + decimal((n - 1 - k) as nat)) + ", "@ + (if bind_goto && k
                    == n - 1 {
                    p + "goto"@
                } else {
                    "_"@
                }) + ") = "@ + (p + "pop_"@ + ("Variant"@ + decimal(variants[n - 1 - k] as nat)))
                    + "(&mut "@ + p + "parser."@ + p + "stack);"@,
        );
        assert forall|k: int| 0 <= k < n implies #[trigger] self.pop_lines(production, bind_goto)[k]
            == pops[k] by {
            let i = n - 1 - k;
            assert(0 <= variants[i] < self.variant_types().len());
            self.law_variant_names(production.symbols[i], variants[i]);
        }
        assert(self.pop_lines(production, bind_goto) =~= pops);
        assert(self.handle_check(production) =~= (if n == 1 {
            seq![]
        } else {
            let count = decimal(n);
            seq![
                "assert!("@ + p + "parser."@ + p + "stack.len() >= "@ + count + ");"@,
            ]
        }));
    }

    /// The function for a production's action code takes the values of the handle
    /// in order, each with the type of its symbol between its locations, or the two
    /// locations of an empty handle by reference. It returns a value of the
    /// nonterminal's type, or such a value or a parse error if the code can fail. It
    /// hands all that it takes on to the code.
    pub proof fn law_action_function(self, production: ProductionView)
        ensures
            ({
                let p = self.grammar.prefix@;
                let types = self.grammar.types;
                let n = production.symbols.len();
                let user = self.grammar.parameters@;
                let loc = types.loc();
                let names = if n == 0 {
                    seq![p + "start"@, p + "end"@]
                } else {
                    Seq::new(n, |i: int| p + "sym"@ + decimal(i as nat))
                };
                let handle_types = if n == 0 {
                    seq!["&"@ + loc, "&"@ + loc]
                } else {
                    Seq::new(n, |i: int| types.spanned(types.type_of(production.symbols[i])))
                };
                let value = types.all@[types.nonterminal_types@[
                    production.nonterminal.0 as int].0 as int].text@;
                let error = types.error();
                let result = if self.grammar.fallible@[production.action.0 as int] {
                    "Result<"@ + value + ", "@ + error + ">"@
                } else {
                    value
                };
                let name = self.function_name(
                    Function::CallAction(self.reduce_index(production) as nat),
                );
                let module = self.action_module@;
                let action = decimal(production.action.0 as nat);
                let type_arguments = self.grammar.type_arguments();
                let arguments = join(
                    ", "@,
                    Seq::new(user.len(), |i: int| user[i].name@) + names,
                );
                let type_parameters = self.grammar.type_parameter_names();
                self.action_shim(production) == seq![
                    "#[allow(dead_code)]"@,
                    "#[inline(never)]"@,
                    "fn "@ + name + "<"@,
                ] + Seq::new(type_parameters.len(), |i: int| type_parameters[i] + ","@) + seq![
                    ">("@,
                ] + Seq::new(
                    user.len(),
                    |i: int| user[i].name@ + ": "@ + types.all@[user[i].ty.0 as int].text@ + ","@,
                ) + Seq::new(names.len(), |i: int| names[i] + ": "@ + handle_types[i] + ","@)
                    + seq![") -> "@ + result] + (if self.grammar.where_clauses@.len() == 0 {
                    seq![]
                } else {
                    seq!["where"@] + Seq::new(
                        self.grammar.where_clauses@.len(),
                        |i: int| self.grammar.where_clauses@[i].text@ + ","@,
                    )
                }) + seq![
                    "{"@,
                    module + "::"@ + p + "action"@ + action + "::<"@ + type_arguments + ">("@
                        + arguments + ")"@,
                    "}"@,
                    ""@,
                ]
            }),
    {
        let p = self.grammar.prefix@;
        let types = self.grammar.types;
        let n = production.symbols.len();
        let user = self.grammar.parameters@;
        let loc = types.loc();
        let names = if n == 0 {
            seq![p + "start"@, p + "end"@]
        } else {
            Seq::new(n, |i: int| p + "sym"@ + decimal(i as nat))
        };
        let handle_types = if n == 0 {
            seq!["&"@ + loc, "&"@ + loc]
        } else {
            Seq::new(n, |i: int| types.spanned(types.type_of(production.symbols[i])))
        };
        let result = self.action_result(production);
        let name = self.action_name(production);
        let type_parameters = self.grammar.type_parameter_names();
        let own = self.action_parameters(production);
        let parameters = self.grammar.parameter_decls() + own;
        reveal_strlit("start: &");
        reveal_strlit("end: &");
        reveal_strlit("start");
        reveal_strlit("end");
        reveal_strlit(": ");
        reveal_strlit("&");
        assert forall|i: int| 0 <= i < names.len() implies #[trigger] own[i] == names[i] + ": "@
            + handle_types[i] by {
            assert(own[i] =~= names[i] + ": "@ + handle_types[i]);
        }
        assert(own.len() == names.len());
        self.lemma_header(name, type_parameters, parameters, result);
        let user_lines = Seq::new(
            user.len(),
            |i: int| user[i].name@ + ": "@ + types.all@[user[i].ty.0 as int].text@ + ","@,
        );
        let own_lines = Seq::new(names.len(), |i: int| names[i] + ": "@ + handle_types[i] + ","@);
        assert(Seq::new(parameters.len(), |i: int| parameters[i] + ","@) =~= user_lines
            + own_lines);
        self.lemma_arguments(names);
        assert(self.action_arguments(production) =~= names);
        let module = self.action_module@;
        let action = decimal(production.action.0 as nat);
        let type_arguments = self.grammar.type_arguments();
        let arguments = join(", "@, Seq::new(user.len(), |i: int| user[i].name@) + names);
        let refs = self.grammar.user_refs();
        let args = join(", "@, names);
        let call = module + "::"@ + p + "action"@ + action + "::<"@ + type_arguments + ">("@
            + arguments + ")"@;
        let head = module + "::"@ + p + "action"@ + action + "::<"@ + type_arguments + ">("@;
        assert(head + refs + args + ")"@ =~= head + (refs + args) + ")"@);
        assert(self.action_line(production) == call);
        let type_lines = Seq::new(type_parameters.len(), |i: int| type_parameters[i] + ","@);
        let clauses = if self.grammar.where_clauses@.len() == 0 {
            seq![]
        } else {
            seq!["where"@] + Seq::new(
                self.grammar.where_clauses@.len(),
                |i: int| self.grammar.where_clauses@[i].text@ + ","@,
            )
        };
        self.lemma_shim_lines(
            name,
            type_lines,
            user_lines,
            own_lines,
            ") -> "@ + result,
            clauses,
            call,
        );
    }

    /// The lines of a function, however they are put together.
    proof fn lemma_shim_lines(
        self,
        name: Line,
        type_lines: Seq<Line>,
        user_lines: Seq<Line>,
        own_lines: Seq<Line>,
        result: Line,
        clauses: Seq<Line>,
        call: Line,
    )
        ensures
            seq!["#[allow(dead_code)]"@, "#[inline(never)]"@] + (seq!["fn "@ + name + "<"@]
                + type_lines + seq![">("@] + (user_lines + own_lines) + seq![result] + clauses)
                + seq!["{"@, call, "}"@, ""@] == seq![
                "#[allow(dead_code)]"@,
                "#[inline(never)]"@,
                "fn "@ + name + "<"@,
            ] + type_lines + seq![">("@] + user_lines + own_lines + seq![result] + clauses + seq![
                "{"@,
                call,
                "}"@,
                ""@,
            ],
    {
        assert(seq!["#[allow(dead_code)]"@, "#[inline(never)]"@] + (seq!["fn "@ + name + "<"@]
            + type_lines + seq![">("@] + (user_lines + own_lines) + seq![result] + clauses)
            + seq!["{"@, call, "}"@, ""@] =~= seq![
            "#[allow(dead_code)]"@,
            "#[inline(never)]"@,
            "fn "@ + name + "<"@,
        ] + type_lines + seq![">("@] + user_lines + own_lines + seq![result] + clauses + seq![
            "{"@,
            call,
            "}"@,
            ""@,
        ]);
    }

    /// The user's parameters with more arguments behind them.
    proof fn lemma_arguments(self, rest: Seq<Line>)
        requires
            rest.len() > 0,
        ensures
            self.grammar.user_refs() + join(", "@, rest) == join(
                ", "@,
                Seq::new(
                    self.grammar.parameters@.len(),
                    |i: int| self.grammar.parameters@[i].name@,
                ) + rest,
            ),
        decreases rest.len(),
    {
        let user = Seq::new(
            self.grammar.parameters@.len(),
            |i: int| self.grammar.parameters@[i].name@,
        );
        let all = user + rest;
        self.grammar.law_user_refs(rest.last());
        if rest.len() == 1 {
            assert(all =~= user.push(rest[0]));
        } else {
            let before = rest.drop_last();
            self.lemma_arguments(before);
            assert(all.drop_last() =~= user + before);
            let refs = self.grammar.user_refs();
            assert(refs + (join(", "@, before) + ", "@ + rest.last()) =~= refs + join(
                ", "@,
                before,
            ) + ", "@ + rest.last());
        }
    }

    /// A parser function calls the action code through the function for it, with
    /// the user's parameters and then the values of the handle, in the order in
    /// which that function takes them; or the two locations of an empty handle. An
    /// error of code that can fail ends the parse.
    pub proof fn law_action_call(self, production: ProductionView)
        ensures
            ({
                let p = self.grammar.prefix@;
                let n = production.symbols.len();
                let user = self.grammar.parameters@;
                let name = self.function_name(
                    Function::CallAction(self.reduce_index(production) as nat),
                );
                let types = self.grammar.type_arguments();
                let arguments = join(
                    ", "@,
                    Seq::new(user.len(), |i: int| user[i].name@) + (if n == 0 {
                        seq!["&"@ + p + "start"@, "&"@ + p + "end"@]
                    } else {
                        Seq::new(n, |i: int| p + "sym"@ + decimal(i as nat))
                    }),
                );
                let call = name + "::<"@ + types + ">("@ + arguments + ")"@;
                self.action_call(production) == if self.grammar.fallible@[
                    production.action.0 as int] {
                    seq![
                        "let "@ + p + "nt = match "@ + call + " {"@,
                        "Ok("@ + p + "v) => "@ + p + "v,"@,
                        "Err("@ + p + "e) => { "@ + p + "parser."@ + p + "result = Some(Err("@
                            + p + "e)); return; }"@,
                        "};"@,
                    ]
                } else {
                    seq![
                        "let "@ + p + "nt = "@ + call + ";"@,
                    ]
                }
            }),
    {
        let p = self.grammar.prefix@;
        let n = production.symbols.len();
        let user = self.grammar.parameters@;
        let own = if n == 0 {
            seq!["&"@ + p + "start"@, "&"@ + p + "end"@]
        } else {
            Seq::new(n, |i: int| p + "sym"@ + decimal(i as nat))
        };
        assert(self.call_arguments(production) =~= own);
        self.lemma_arguments(own);
        let name = self.action_name(production);
        let types = self.grammar.type_arguments();
        let refs = self.grammar.user_refs();
        let args = join(", "@, own);
        let arguments = join(", "@, Seq::new(user.len(), |i: int| user[i].name@) + own);
        let call = name + "::<"@ + types + ">("@ + arguments + ")"@;
        reveal_strlit(") {");
        reveal_strlit(");");
        reveal_strlit(")");
        reveal_strlit(" {");
        reveal_strlit(";");
        assert("let "@ + p + "nt = match "@ + name + "::<"@ + types + ">("@ + refs + args + ") {"@
            =~= "let "@ + p + "nt = match "@ + call + " {"@);
        assert("let "@ + p + "nt = "@ + name + "::<"@ + types + ">("@ + refs + args + ");"@
            =~= "let "@ + p + "nt = "@ + call + ";"@);
    }

    /// Accepting pops the handle of the start production, runs its action code, and
    /// fills in the result before it returns: the value, if nothing is left of the
    /// input, else an error with the token that is left.
    pub proof fn law_accept(self, production: ProductionView)
        ensures
            ({
                let p = self.grammar.prefix@;
                self.accept(production) == self.pop_handle(production, false) + self.action_call(
                    production,
                ) + seq![
                    p + "parser."@ + p + "result = Some(match "@ + p + "lookahead {"@,
                    "None => Ok("@ + p + "nt),"@,
                    "Some("@ + p + "token) => Err("@ + p
                        + "lalrpop_util::ParseError::ExtraToken { token: "@ + p + "token }),"@,
                    "});"@,
                    "return;"@,
                ]
            }),
    {
    }

    /// An empty handle spans nothing: it starts and ends at the start of the
    /// lookahead, or else at the end of the last symbol on the stack. What the
    /// action code gives for it is pushed in the variant `k` that is declared for the
    /// nonterminal's type, with the state's own goto function as continuation; the
    /// state's goto for the nonterminal comes next.
    pub proof fn law_empty_reduction(self, state: int, production: ProductionView, k: int)
        requires
            0 <= k < self.variant_types().len(),
            self.variant_types()[k] == self.grammar.types.nonterminal_types@[
                production.nonterminal.0 as int],
        ensures
            ({
                let p = self.grammar.prefix@;
                let variant = "Variant"@ + decimal(k as nat);
                let goto = self.function_name(Function::Goto(state as nat));
                let target = self.states@[state].goto(production.nonterminal);
                self.empty_reduce(state, production) == seq![
                    "let "@ + p + "start = match &"@ + p + "parser."@ + p + "lookahead {"@,
                    "Some("@ + p + "t) => "@ + p + "t.0.clone(),"@,
                    "None => match "@ + p + "parser."@ + p + "stack.last() {"@,
                    "Some("@ + p + "entry) => ("@ + p + "entry.0).2.clone(),"@,
                    "None => Default::default(),"@,
                    "},"@,
                    "};"@,
                    "let "@ + p + "end = "@ + p + "start.clone();"@,
                ] + self.action_call(production) + seq![
                    p + "parser."@ + p + "stack.push((("@ + p + "start, "@ + p + "Symbol::"@
                        + variant + "("@ + p + "nt), "@ + p + "end), "@ + p + "Goto("@ + goto
                        + ")));"@,
                    self.transition(self.function_name(Function::State(target.0 as nat))),
                ]
            }),
    {
        self.law_variant_names(Symbol::Nonterminal(production.nonterminal), k);
    }

    /// The function of a production pops its handle with the continuation below it,
    /// runs the action code, and pushes the result between the handle's locations,
    /// with that continuation. The result goes into the variant `k` that is declared
    /// for the nonterminal's type, whatever the types of the handle are: the one
    /// that any later handle with that nonterminal is popped from. The function
    /// announces the nonterminal by its number and calls the continuation.
    pub proof fn law_reduce_function(self, production: ProductionView, k: int)
        requires
            0 <= k < self.variant_types().len(),
            self.variant_types()[k] == self.grammar.types.nonterminal_types@[
                production.nonterminal.0 as int],
        ensures
            ({
                let p = self.grammar.prefix@;
                let text = self.production_text(production);
                let variant = "Variant"@ + decimal(k as nat);
                let number = decimal(production.nonterminal.0 as nat);
                self.reduce_fn(production) == seq![
                    ""@,
                    "// "@ + text,
                    "#[allow(dead_code)]"@,
                ] + self.parser_fn_header(
                    self.function_name(Function::Reduce(self.reduce_index(production) as nat)),
                ) + self.pop_handle(production, true) + self.action_call(production) + seq![
                    p + "parser."@ + p + "stack.push((("@ + p + "start, "@ + p + "Symbol::"@
                        + variant + "("@ + p + "nt), "@ + p + "end), "@ + p + "goto));"@,
                    p + "parser."@ + p + "reduced_nt = "@ + number + ";"@,
                    self.transition("("@ + p + "goto.0)"@),
                    "}"@,
                ]
            }),
    {
        self.law_variant_names(Symbol::Nonterminal(production.nonterminal), k);
    }

    /// What a reduction pushes for a nonterminal is what any other reduction pops
    /// for it: if production `later` has the nonterminal of `production` at position
    /// `i`, then the line that pushes the result of `production` and the line that
    /// pops position `i` of `later` speak of the same variant.
    pub proof fn law_pushed_values_can_be_popped(
        self,
        production: ProductionView,
        later: ProductionView,
        bind_goto: bool,
        i: int,
    ) -> (variant: Line)
        requires
            self.grammar.has_nonterminal(production.nonterminal),
            0 <= i < later.symbols.len(),
            later.symbols[i] == Symbol::Nonterminal(production.nonterminal),
        ensures
            ({
                let p = self.grammar.prefix@;
                let reduce = self.reduce_fn(production);
                let sym = p + "sym"@ + decimal(i as nat);
                let goto = if i == 0 && bind_goto {
                    p + "goto"@
                } else {
                    "_"@
                };
                let pop = p + "pop_"@ + variant;
                &&& reduce[reduce.len() - 4] == p + "parser."@ + p + "stack.push((("@ + p
                    + "start, "@ + p + "Symbol::"@ + variant + "("@ + p + "nt), "@ + p
                    + "end), "@ + p + "goto));"@
                &&& self.pop_handle(later, bind_goto).contains(
                    "let ("@ + sym + ", "@ + goto + ") = "@ + pop + "(&mut "@ + p + "parser."@
                        + p + "stack);"@
                )
            }),
    {
        let p = self.grammar.prefix@;
        let symbol = Symbol::Nonterminal(production.nonterminal);
        self.lemma_symbol_type_listed(symbol);
        let k = self.variant_types().index_of(self.grammar.types.type_of(symbol));
        self.law_variant_names(symbol, k);
        self.law_reduce_function(production, k);
        let check = self.handle_check(later).len();
        let at = check + (later.symbols.len() - 1 - i);
        assert(self.pop_handle(later, bind_goto)[at] == self.pop_line(later, bind_goto, i));
        "Variant"@ + decimal(k as nat)
    }

    /// A production is shown as its nonterminal, its symbols in order, and its
    /// action.
    pub proof fn law_production_text(self, production: ProductionView)
        ensures
            ({
                let nonterminal = self.grammar.nonterminals@[
                    production.nonterminal.0 as int].name@;
                let symbols = join(
                    ", "@,
                    Seq::new(
                        production.symbols.len(),
                        |i: int|
                            match production.symbols[i] {
                                Symbol::Terminal(t) => self.grammar.terminals@[t.0 as int].name@,
                                Symbol::Nonterminal(n) => self.grammar.nonterminals@[
                                    n.0 as int].name@,
                            },
                    ),
                );
                let action = decimal(production.action.0 as nat);
                self.production_text(production) == nonterminal + " = "@ + symbols
                    + " => ActionFn("@ + action + ");"@
            }),
    {
        assert(Seq::new(
            production.symbols.len(),
            |i: int| self.grammar.name_of(production.symbols[i]),
        ) =~= Seq::new(
            production.symbols.len(),
            |i: int|
                match production.symbols[i] {
                    Symbol::Terminal(t) => self.grammar.terminals@[t.0 as int].name@,
                    Symbol::Nonterminal(n) => self.grammar.nonterminals@[n.0 as int].name@,
                },
        ));
    }

    /// There is a reduce function for each production that has symbols and is not
    /// one of the start symbol, in the order of the productions.
    pub proof fn law_reduce_functions_are_complete(self) -> (picked: Seq<int>)
        ensures
            increasing(picked),
            forall|i: int| #[trigger]
                picked.contains(i) <==> 0 <= i < self.grammar.productions().len()
                    && self.grammar.productions()[i].nonterminal != self.start_symbol
                    && self.grammar.productions()[i].symbols.len() > 0,
            self.reduce_fns(self.grammar.productions().len()) == Seq::new(
                picked.len(),
                |k: int| self.reduce_fn(self.grammar.productions()[picked[k]]),
            ).flatten_alt(),
    {
        self.lemma_reduce_fns(self.grammar.productions().len())
    }

    proof fn lemma_reduce_fns(self, n: nat) -> (picked: Seq<int>)
        ensures
            increasing(picked),
            forall|i: int| #[trigger]
                picked.contains(i) <==> 0 <= i < n && self.grammar.productions()[i].nonterminal
                    != self.start_symbol && self.grammar.productions()[i].symbols.len() > 0,
            self.reduce_fns(n) == Seq::new(
                picked.len(),
                |k: int| self.reduce_fn(self.grammar.productions()[picked[k]]),
            ).flatten_alt(),
        decreases n,
    {
        let productions = self.grammar.productions();
        if n == 0 {
            let picked = Seq::<int>::empty();
            assert(Seq::new(picked.len(), |k: int| self.reduce_fn(productions[picked[k]]))
                =~= seq![]);
            picked
        } else {
            let before = self.lemma_reduce_fns((n - 1) as nat);
            let pick = self.has_reduce_fn(productions[n - 1]);
            let picked = lemma_pick(before, n - 1, pick);
            let parts = Seq::new(picked.len(), |k: int| self.reduce_fn(productions[picked[k]]));
            let parts_before = Seq::new(
                before.len(),
                |k: int| self.reduce_fn(productions[before[k]]),
            );
            if pick {
                assert(parts.drop_last() =~= parts_before);
            } else {
                assert(parts =~= parts_before);
            }
            picked
        }
    }
}

} // verus!
