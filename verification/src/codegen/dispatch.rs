//! How the functions of a state dispatch: which arm of their match is taken, and
//! what it does.
use crate::codegen::groups::{grouped, Group};
use crate::codegen::input::{Function, Input};
use crate::grammar::{NonterminalString, Symbol, TerminalString};
use crate::lr1::{Lr1State, StateIndex, Token};
use crate::sequences::{increasing, lemma_pick};
use crate::text::{decimal, join, law_decimal_tells_numbers_apart};
use vstd::prelude::*;

verus! {

impl<'a, 'grammar> Input<'a, 'grammar> {
    /// The goto function of a state is a match on the nonterminal that was reduced.
    /// Its lines are the arms of the gotos, one after the other, each with the
    /// number of its nonterminal and the transition to its target; one catch-all
    /// stands behind the last of them. Without gotos there is no match.
    pub proof fn law_goto_function(self, state: int)
        ensures
            ({
                let p = self.grammar.prefix@;
                let index = decimal(state as nat);
                let gotos = self.states@[state].gotos@;
                self.goto_fn(state) == seq![""@] + (if self.emit_comments {
                    seq![
                        "// Goto function for state "@ + index,
                    ]
                } else {
                    seq![]
                }) + seq!["#[allow(dead_code)]"@] + self.parser_fn_header(
                    self.function_name(Function::Goto(state as nat)),
                ) + (if gotos.len() == 0 {
                    seq!["unreachable!()"@]
                } else {
                    seq![
                        "match "@ + p + "parser."@ + p + "reduced_nt {"@,
                    ] + Seq::new(
                        gotos.len(),
                        |i: int|
                            seq![
                                decimal((gotos[i].0).0 as nat) + " => {"@,
                                self.transition(
                                    self.function_name(Function::State((gotos[i].1).0 as nat)),
                                ),
                                "}"@,
                            ],
                    ).flatten_alt() + seq![
                        "_ => unreachable!(),"@,
                        "}"@,
                    ]
                }) + seq!["}"@]
            }),
    {
        self.lemma_goto_arms(state, self.states@[state].gotos@.len());
    }

    proof fn lemma_goto_arms(self, state: int, n: nat)
        ensures
            ({
                let gotos = self.states@[state].gotos@;
                self.goto_arms(state, n) == Seq::new(
                    n,
                    |i: int|
                        seq![
                            decimal((gotos[i].0).0 as nat) + " => {"@,
                            self.transition(
                                self.function_name(Function::State((gotos[i].1).0 as nat)),
                            ),
                            "}"@,
                        ],
                ).flatten_alt()
            }),
        decreases n,
    {
        let gotos = self.states@[state].gotos@;
        let parts = Seq::new(
            n,
            |i: int|
                seq![
                    decimal((gotos[i].0).0 as nat) + " => {"@,
                    self.transition(self.function_name(Function::State((gotos[i].1).0 as nat))),
                    "}"@,
                ],
        );
        if n > 0 {
            self.lemma_goto_arms(state, (n - 1) as nat);
            assert(parts.drop_last() =~= Seq::new(
                (n - 1) as nat,
                |i: int|
                    seq![
                        decimal((gotos[i].0).0 as nat) + " => {"@,
                        self.transition(self.function_name(Function::State((gotos[i].1).0 as nat))),
                        "}"@,
                    ],
            ));
        }
    }

    /// In the goto function of a state, the first arm that matches the number of a
    /// nonterminal with a goto is the arm that enters that goto's target. Of the
    /// lines of the match before it, none is a catch-all, and none opens an arm for
    /// that number.
    pub proof fn law_goto_dispatch(self, state: int, i: int) -> (at: int)
        requires
            0 <= i < self.states@[state].gotos@.len(),
            forall|j: int|
                0 <= j < i ==> (#[trigger] self.states@[state].gotos@[j]).0
                    != self.states@[state].gotos@[i].0,
        ensures
            ({
                let p = self.grammar.prefix@;
                let (nt, target) = self.states@[state].gotos@[i];
                let text = self.goto_fn(state);
                let start = self.goto_open(state).len() as int;
                &&& text[start] == "match "@ + p + "parser."@ + p + "reduced_nt {"@
                &&& start < at < text.len() - 4
                &&& text[at] == decimal(nt.0 as nat) + " => {"@
                &&& text[at + 1] == self.transition(
                    self.function_name(Function::State(target.0 as nat)),
                )
                &&& text[at + 2] == "}"@
                &&& forall|k: int|
                    start < k < at ==> #[trigger] text[k] != "_ => unreachable!(),"@ && text[k]
                        != decimal(nt.0 as nat) + " => {"@
                &&& text[text.len() - 3] == "_ => unreachable!(),"@
            }),
    {
        let gotos = self.states@[state].gotos@;
        let (nt, target) = gotos[i];
        let text = self.goto_fn(state);
        let open = self.goto_open(state);
        let start = open.len() as int;
        let arms = self.goto_arms(state, gotos.len());
        let head = decimal(nt.0 as nat) + " => {"@;
        self.lemma_goto_lines(state, gotos.len());
        assert forall|k: int| 0 <= k < arms.len() implies #[trigger] text[start + 1 + k]
            == arms[k] by {}
        let at = start + 1 + 3 * i;
        assert(text[at] == arms[3 * i]);
        assert(text[at + 1] == arms[3 * i + 1]);
        assert(text[at + 2] == arms[3 * i + 2]);
        assert forall|k: int| start < k < at implies #[trigger] text[k] != "_ => unreachable!(),"@
            && text[k] != head by {
            let j = k - start - 1;
            assert(text[start + 1 + j] == arms[j]);
            let e = j / 3;
            assert(arms[3 * e] == decimal((gotos[e].0).0 as nat) + " => {"@);
            self.lemma_goto_line_differs(state, e, nt);
            assert(arms[j] == if j % 3 == 0 {
                decimal((gotos[e].0).0 as nat) + " => {"@
            } else if j % 3 == 1 {
                self.transition(self.function_name(Function::State((gotos[e].1).0 as nat)))
            } else {
                "}"@
            });
        }
        at
    }

    proof fn lemma_goto_lines(self, state: int, n: nat)
        ensures
            self.goto_arms(state, n).len() == 3 * n,
            forall|e: int|
                0 <= e < n ==> {
                    let (nt, target) = self.states@[state].gotos@[e];
                    &&& #[trigger] self.goto_arms(state, n)[3 * e] == decimal(nt.0 as nat)
                        + " => {"@
                    &&& self.goto_arms(state, n)[3 * e + 1] == self.transition(
                        self.function_name(Function::State(target.0 as nat)),
                    )
                    &&& self.goto_arms(state, n)[3 * e + 2] == "}"@
                },
        decreases n,
    {
        if n > 0 {
            self.lemma_goto_lines(state, (n - 1) as nat);
            let before = self.goto_arms(state, (n - 1) as nat);
            assert forall|e: int| 0 <= e < n implies {
                let (nt, target) = self.states@[state].gotos@[e];
                &&& #[trigger] self.goto_arms(state, n)[3 * e] == decimal(nt.0 as nat) + " => {"@
                &&& self.goto_arms(state, n)[3 * e + 1] == self.transition(
                    self.function_name(Function::State(target.0 as nat)),
                )
                &&& self.goto_arms(state, n)[3 * e + 2] == "}"@
            } by {
                if e < n - 1 {
                    assert(self.goto_arms(state, n)[3 * e] == before[3 * e]);
                    assert(self.goto_arms(state, n)[3 * e + 1] == before[3 * e + 1]);
                    assert(self.goto_arms(state, n)[3 * e + 2] == before[3 * e + 2]);
                }
            }
        }
    }

    /// No line of an arm for another nonterminal is taken for the catch-all or for
    /// the arm of `nt`.
    proof fn lemma_goto_line_differs(self, state: int, e: int, nt: NonterminalString)
        requires
            self.states@[state].gotos@[e].0 != nt,
        ensures
            ({
                let (other, target) = self.states@[state].gotos@[e];
                let head = decimal(nt.0 as nat) + " => {"@;
                let transition = self.transition(
                    self.function_name(Function::State(target.0 as nat)),
                );
                &&& decimal(other.0 as nat) + " => {"@ != head
                &&& transition != head
                &&& "}"@ != head
                &&& decimal(other.0 as nat) + " => {"@ != "_ => unreachable!(),"@
                &&& transition != "_ => unreachable!(),"@
                &&& "}"@ != "_ => unreachable!(),"@
            }),
    {
        let (other, target) = self.states@[state].gotos@[e];
        let first = decimal(other.0 as nat);
        let second = decimal(nt.0 as nat);
        let head = second + " => {"@;
        let transition = self.transition(self.function_name(Function::State(target.0 as nat)));
        reveal_strlit(" => {");
        reveal_strlit("_ => unreachable!(),");
        reveal_strlit("}");
        reveal_strlit("parser))");
        assert((first + " => {"@).last() == '{');
        assert(head.last() == '{');
        assert(transition.last() == ')');
        assert("_ => unreachable!(),"@.last() == ',');
        assert("}"@.last() == '}');
        if first + " => {"@ == head {
            assert((first + " => {"@).len() == head.len());
            assert(first =~= head.take(second.len() as int));
            assert(second =~= head.take(second.len() as int));
            law_decimal_tells_numbers_apart(other.0 as nat, nt.0 as nat);
        }
    }

    /// The function of a state takes the lookahead and is a match on it. Its lines
    /// are the arms of the shifts, then those of the groups of reductions, then one
    /// catch-all that reports an error.
    pub proof fn law_state_function(self, state: int)
        ensures
            ({
                let p = self.grammar.prefix@;
                let shifts = self.states@[state].shifts@;
                let reductions = self.states@[state].reductions@;
                let groups = grouped(reductions, reductions.len());
                self.state_fn(state) == seq![""@] + (if self.emit_comments {
                    self.state_comment(state)
                } else {
                    seq![]
                }) + self.parser_fn_header(self.function_name(Function::State(state as nat)))
                    + seq![
                    "let "@ + p + "lookahead = "@ + p + "parser."@ + p + "lookahead.take();"@,
                    "match "@ + p + "lookahead {"@,
                ] + Seq::new(
                    shifts.len(),
                    |i: int| self.shift_arm(state, shifts[i].0, shifts[i].1),
                ).flatten_alt() + Seq::new(
                    groups.len(),
                    |i: int| self.reduce_arm(state, groups[i]),
                ).flatten_alt() + seq!["_ => {"@] + self.error(self.states@[state]) + seq![
                    "}"@,
                    "}"@,
                    "}"@,
                ]
            }),
    {
        self.lemma_shift_arms(state, self.states@[state].shifts@.len());
        self.lemma_reduce_arms(state, self.groups(state).len());
    }

    proof fn lemma_shift_arms(self, state: int, n: nat)
        ensures
            ({
                let shifts = self.states@[state].shifts@;
                self.shift_arms(state, n) == Seq::new(
                    n,
                    |i: int| self.shift_arm(state, shifts[i].0, shifts[i].1),
                ).flatten_alt()
            }),
        decreases n,
    {
        let shifts = self.states@[state].shifts@;
        let parts = Seq::new(n, |i: int| self.shift_arm(state, shifts[i].0, shifts[i].1));
        if n > 0 {
            self.lemma_shift_arms(state, (n - 1) as nat);
            assert(parts.drop_last() =~= Seq::new(
                (n - 1) as nat,
                |i: int| self.shift_arm(state, shifts[i].0, shifts[i].1),
            ));
        }
    }

    proof fn lemma_reduce_arms(self, state: int, n: nat)
        ensures
            ({
                let groups = self.groups(state);
                self.reduce_arms(state, n) == Seq::new(
                    n,
                    |i: int| self.reduce_arm(state, groups[i]),
                ).flatten_alt()
            }),
        decreases n,
    {
        let groups = self.groups(state);
        let parts = Seq::new(n, |i: int| self.reduce_arm(state, groups[i]));
        if n > 0 {
            self.lemma_reduce_arms(state, (n - 1) as nat);
            assert(parts.drop_last() =~= Seq::new(
                (n - 1) as nat,
                |i: int| self.reduce_arm(state, groups[i]),
            ));
        }
    }

    /// A token is matched by the pattern of its terminal, with a variable in each
    /// hole, or with a variable for the token as a whole if there is no hole. What
    /// the variables hold is the symbol's value: a single variable as it is, several
    /// as a tuple.
    pub proof fn law_token_patterns(self, t: TerminalString)
        ensures
            ({
                let p = self.grammar.prefix@;
                let pattern = self.grammar.terminals@[t.0 as int].pattern;
                let holes = pattern.rest@.len();
                let names = Seq::new(holes, |i: int| p + "tok"@ + decimal(i as nat));
                let filled = pattern.filled(names);
                let list = join(", "@, names);
                let ignored = pattern.filled(Seq::new(holes, |i: int| "_"@));
                &&& self.terminal_pattern(t) == "(_, "@ + ignored + ", _)"@
                &&& holes == 0 ==> self.extracting_pattern(t) == p + "tok @ "@ + filled
                &&& holes == 0 ==> self.token_content(t) == p + "tok"@
                &&& holes > 0 ==> self.extracting_pattern(t) == filled
                &&& holes == 1 ==> self.token_content(t) == p + "tok"@ + decimal(0)
                &&& holes > 1 ==> self.token_content(t) == "("@ + list + ")"@
            }),
    {
        let p = self.grammar.prefix@;
        let pattern = self.grammar.terminals@[t.0 as int].pattern;
        let holes = pattern.rest@.len();
        assert(self.token_names(holes) =~= Seq::new(
            holes,
            |i: int| p + "tok"@ + decimal(i as nat),
        ));
        assert(Seq::new(self.pattern(t).rest@.len(), |i: int| "_"@) =~= Seq::new(
            holes,
            |i: int| "_"@,
        ));
    }

    /// The arm of a shift binds the token between its locations, in the variant `k`
    /// that is declared for the terminal's type. It pushes it with the state's own
    /// goto function as continuation, fetches the next token as lookahead, and
    /// enters the target state. An error in place of the token ends the parse.
    pub proof fn law_shift_arm(self, state: int, t: TerminalString, target: StateIndex, k: int)
        requires
            0 <= k < self.variant_types().len(),
            self.variant_types()[k] == self.grammar.types.type_of(Symbol::Terminal(t)),
        ensures
            ({
                let p = self.grammar.prefix@;
                let pattern = self.extracting_pattern(t);
                let content = self.token_content(t);
                let variant = "Variant"@ + decimal(k as nat);
                let goto = self.function_name(Function::Goto(state as nat));
                let phantom = self.phantom_expr();
                self.shift_arm(state, t, target) == seq![
                    "Some(("@ + p + "loc1, "@ + pattern + ", "@ + p + "loc2)) => {"@,
                    "let "@ + p + "sym = ("@ + p + "loc1, "@ + p + "Symbol::"@ + variant + "("@
                        + content + "), "@ + p + "loc2);"@,
                    p + "parser."@ + p + "stack.push(("@ + p + "sym, "@ + p + "Goto("@ + goto
                        + ")));"@,
                    "match "@ + p + "next_token(&mut "@ + p + "parser."@ + p + "tokens, "@
                        + phantom + ") {"@,
                    "Ok("@ + p + "la) => "@ + p + "parser."@ + p + "lookahead = "@ + p + "la,"@,
                    "Err("@ + p + "e) => { "@ + p + "parser."@ + p + "result = Some(Err("@ + p
                        + "e)); return; }"@,
                    "}"@,
                    self.transition(self.function_name(Function::State(target.0 as nat))),
                    "}"@,
                ]
            }),
    {
        self.law_variant_names(Symbol::Terminal(t), k);
        let p = self.grammar.prefix@;
        let pattern = self.extracting_pattern(t);
        let content = self.token_content(t);
        let variant = "Variant"@ + decimal(k as nat);
        let goto = self.function_name(Function::Goto(state as nat));
        let phantom = self.phantom_expr();
        assert(self.shift_arm(state, t, target) =~= seq![
            "Some(("@ + p + "loc1, "@ + pattern + ", "@ + p + "loc2)) => {"@,
            "let "@ + p + "sym = ("@ + p + "loc1, "@ + p + "Symbol::"@ + variant + "("@
                + content + "), "@ + p + "loc2);"@,
            p + "parser."@ + p + "stack.push(("@ + p + "sym, "@ + p + "Goto("@ + goto + ")));"@,
            "match "@ + p + "next_token(&mut "@ + p + "parser."@ + p + "tokens, "@ + phantom
                + ") {"@,
            "Ok("@ + p + "la) => "@ + p + "parser."@ + p + "lookahead = "@ + p + "la,"@,
            "Err("@ + p + "e) => { "@ + p + "parser."@ + p + "result = Some(Err("@ + p
                + "e)); return; }"@,
            "}"@,
            self.transition(self.function_name(Function::State(target.0 as nat))),
            "}"@,
        ]);
    }

    /// The arm of a group of reductions has one pattern for each token of the group,
    /// in order; all but the last are alternatives. It accepts, if the production is
    /// one of the start symbol. Otherwise it first puts the lookahead back; then it
    /// reduces in place, if there is nothing to pop, or enters the production's
    /// function.
    pub proof fn law_reduce_arm(self, state: int, group: Group)
        requires
            forall|i: int| 0 <= i < group.tokens.len() ==> #[trigger] group.tokens[i] !is Error,
        ensures
            ({
                let p = self.grammar.prefix@;
                let production = group.production;
                let n = group.tokens.len();
                let restore = p + "parser."@ + p + "lookahead = "@ + p + "lookahead;"@;
                self.reduce_arm(state, group) == Seq::new(
                    n,
                    |i: int|
                        (match group.tokens[i] {
                            Token::Terminal(t) => "Some("@ + self.terminal_pattern(t) + ")"@,
                            _ => "None"@,
                        }) + (if i == n - 1 {
                            " => {"@
                        } else {
                            " |"@
                        }),
                ) + (if production.nonterminal == self.start_symbol {
                    self.accept(production)
                } else if production.symbols.len() == 0 {
                    seq![restore] + self.empty_reduce(state, production)
                } else {
                    seq![
                        restore,
                        self.transition(
                            self.function_name(
                                Function::Reduce(self.reduce_index(production) as nat),
                            ),
                        ),
                    ]
                }) + seq!["}"@]
            }),
    {
        let n = group.tokens.len();
        assert(self.arm_patterns(group.tokens) =~= Seq::new(
            n,
            |i: int|
                (match group.tokens[i] {
                    Token::Terminal(t) => "Some("@ + self.terminal_pattern(t) + ")"@,
                    _ => "None"@,
                }) + (if i == n - 1 {
                    " => {"@
                } else {
                    " |"@
                }),
        ));
    }

    /// The error of a state lists the terminals that it shifts or reduces on, each
    /// once and in the order of the grammar. A token that is left is reported with
    /// that list; at the end of the input, the end of the last symbol on the stack
    /// is.
    pub proof fn law_error(self, state: Lr1State<'grammar>) -> (picked: Seq<int>)
        ensures
            increasing(picked),
            forall|t: int| #[trigger]
                picked.contains(t) <==> 0 <= t < self.grammar.terminals@.len() && {
                    ||| exists|i: int|
                        0 <= i < state.shifts@.len() && (#[trigger] state.shifts@[i]).0
                            == TerminalString(t as usize)
                    ||| exists|i: int|
                        0 <= i < state.reductions@.len() && (
                        #[trigger] state.reductions@[i]).tokens@.contains(
                            Token::Terminal(TerminalString(t as usize)),
                        )
                },
            ({
                let p = self.grammar.prefix@;
                self.error(state) == seq![
                    "#[allow(clippy::needless_raw_string_hashes)]"@,
                    "let "@ + p + "expected = alloc::vec!["@,
                ] + Seq::new(
                    picked.len(),
                    |k: int|
                        "r###\""@ + self.grammar.terminals@[picked[k]].name@ + "\"###.to_string(),"@,
                ) + seq![
                    "];"@,
                    p + "parser."@ + p + "result = Some(Err(match "@ + p + "lookahead {"@,
                    "Some("@ + p + "token) => {"@,
                    p + "lalrpop_util::ParseError::UnrecognizedToken {"@,
                    "token: "@ + p + "token,"@,
                    "expected: "@ + p + "expected,"@,
                    "}"@,
                    "}"@,
                    "None => {"@,
                    "let "@ + p + "location = match "@ + p + "parser."@ + p + "stack.last() {"@,
                    "Some("@ + p + "entry) => ("@ + p + "entry.0).2.clone(),"@,
                    "None => Default::default(),"@,
                    "};"@,
                    p + "lalrpop_util::ParseError::UnrecognizedEof {"@,
                    "location: "@ + p + "location,"@,
                    "expected: "@ + p + "expected,"@,
                    "}"@,
                    "}"@,
                    "}));"@,
                    "return;"@,
                ]
            }),
    {
        let n = self.grammar.terminals@.len();
        let picked = self.lemma_expected(state, n);
        assert(self.expected(state, n) =~= Seq::new(
            picked.len(),
            |k: int| "r###\""@ + self.grammar.terminals@[picked[k]].name@ + "\"###.to_string(),"@,
        ));
        picked
    }

    proof fn lemma_expected(self, state: Lr1State<'grammar>, n: nat) -> (picked: Seq<int>)
        requires
            n <= self.grammar.terminals@.len(),
        ensures
            increasing(picked),
            forall|t: int| #[trigger]
                picked.contains(t) <==> 0 <= t < n && state.accepts(TerminalString(t as usize)),
            self.expected(state, n).len() == picked.len(),
            forall|k: int|
                0 <= k < picked.len() ==> #[trigger] self.expected(state, n)[k] == "r###\""@
                    + self.grammar.terminals@[picked[k]].name@ + "\"###.to_string(),"@,
        decreases n,
    {
        if n == 0 {
            Seq::empty()
        } else {
            let before = self.lemma_expected(state, (n - 1) as nat);
            let picked = lemma_pick(
                before,
                n - 1,
                state.accepts(TerminalString((n - 1) as usize)),
            );
            let lines = self.expected(state, (n - 1) as nat);
            assert forall|k: int| 0 <= k < picked.len() implies #[trigger] self.expected(
                state,
                n,
            )[k] == "r###\""@ + self.grammar.terminals@[picked[k]].name@ + "\"###.to_string(),"@ by {
                if k < before.len() {
                    assert(lines[k] == "r###\""@ + self.grammar.terminals@[before[k]].name@
                        + "\"###.to_string(),"@);
                }
            }
            picked
        }
    }

    /// The comment on a state shows its number, its items, its shifts, its
    /// reductions with the tokens that trigger them, and its gotos.
    pub proof fn law_state_comment(self, state: int)
        ensures
            ({
                let this_state = self.states@[state];
                let index = decimal(state as nat);
                self.state_comment(state) == seq![
                    "// State "@ + index,
                    "//"@,
                ] + Seq::new(
                    this_state.items@.len(),
                    |i: int| "//     "@ + this_state.items@[i]@,
                ) + seq!["//"@] + Seq::new(
                    this_state.shifts@.len(),
                    |i: int|
                        "//   "@ + self.grammar.terminals@[(this_state.shifts@[i].0).0 as int].name@
                            + " -> S"@ + decimal((this_state.shifts@[i].1).0 as nat),
                ) + Seq::new(
                    this_state.reductions@.len(),
                    |i: int|
                        "//   "@ + ("["@ + join(
                            ", "@,
                            Seq::new(
                                this_state.reductions@[i].tokens@.len(),
                                |k: int|
                                    match this_state.reductions@[i].tokens@[k] {
                                        Token::Eof => "EOF"@,
                                        Token::Error => "Error"@,
                                        Token::Terminal(t) => self.grammar.terminals@[
                                            t.0 as int].name@,
                                    },
                            ),
                        ) + "]"@) + " -> "@ + self.production_text(
                            this_state.reductions@[i].production@,
                        ),
                ) + seq!["//"@] + Seq::new(
                    this_state.gotos@.len(),
                    |i: int|
                        "//     "@ + self.grammar.nonterminals@[
                            (this_state.gotos@[i].0).0 as int].name@ + " -> S"@ + decimal(
                            (this_state.gotos@[i].1).0 as nat,
                        ),
                )
            }),
    {
        let this_state = self.states@[state];
        assert(self.item_comments(this_state) =~= Seq::new(
            this_state.items@.len(),
            |i: int| "//     "@ + this_state.items@[i]@,
        ));
        assert(self.shift_comments(this_state) =~= Seq::new(
            this_state.shifts@.len(),
            |i: int|
                "//   "@ + self.grammar.terminals@[(this_state.shifts@[i].0).0 as int].name@
                    + " -> S"@ + decimal((this_state.shifts@[i].1).0 as nat),
        ));
        let reductions = Seq::new(
            this_state.reductions@.len(),
            |i: int|
                "//   "@ + ("["@ + join(
                    ", "@,
                    Seq::new(
                        this_state.reductions@[i].tokens@.len(),
                        |k: int|
                            match this_state.reductions@[i].tokens@[k] {
                                Token::Eof => "EOF"@,
                                Token::Error => "Error"@,
                                Token::Terminal(t) => self.grammar.terminals@[t.0 as int].name@,
                            },
                    ),
                ) + "]"@) + " -> "@ + self.production_text(
                    this_state.reductions@[i].production@,
                ),
        );
        assert forall|i: int| 0 <= i < this_state.reductions@.len() implies #[trigger]
            self.reduction_comments(this_state)[i] == reductions[i] by {
            let tokens = this_state.reductions@[i].tokens@;
            assert(Seq::new(tokens.len(), |k: int| self.token_text(tokens[k])) =~= Seq::new(
                tokens.len(),
                |k: int|
                    match tokens[k] {
                        Token::Eof => "EOF"@,
                        Token::Error => "Error"@,
                        Token::Terminal(t) => self.grammar.terminals@[t.0 as int].name@,
                    },
            ));
            assert(Seq::new(
                this_state.reductions@[i].tokens@.len(),
                |k: int|
                    match this_state.reductions@[i].tokens@[k] {
                        Token::Eof => "EOF"@,
                        Token::Error => "Error"@,
                        Token::Terminal(t) => self.grammar.terminals@[t.0 as int].name@,
                    },
            ) =~= Seq::new(
                tokens.len(),
                |k: int|
                    match tokens[k] {
                        Token::Eof => "EOF"@,
                        Token::Error => "Error"@,
                        Token::Terminal(t) => self.grammar.terminals@[t.0 as int].name@,
                    },
            ));
        }
        assert(self.reduction_comments(this_state) =~= reductions);
        assert(self.goto_comments(this_state) =~= Seq::new(
            this_state.gotos@.len(),
            |i: int|
                "//     "@ + self.grammar.nonterminals@[(this_state.gotos@[i].0).0 as int].name@
                    + " -> S"@ + decimal((this_state.gotos@[i].1).0 as nat),
        ));
    }
}

} // verus!
