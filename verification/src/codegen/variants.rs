//! Where values are kept: the type of symbols has one variant for each type, and
//! whoever stores or takes a value goes by the variant of its type.
use crate::codegen::input::Input;
use crate::grammar::{NonterminalString, Symbol, TerminalString, TypeParameter, TypeRepr};
use crate::sequences::{increasing, lemma_pick};
use crate::text::{decimal, join};
use vstd::prelude::*;

verus! {

impl<'a, 'grammar> Input<'a, 'grammar> {
    /// The types with a variant are those of the terminals and of the nonterminals,
    /// each once.
    pub proof fn law_variant_types(self, ty: TypeRepr)
        ensures
            self.variant_types().no_duplicates(),
            self.variant_types().contains(ty) <==> {
                ||| exists|t: int|
                    0 <= t < self.grammar.terminals@.len() && #[trigger] self.grammar.types.type_of(
                        Symbol::Terminal(TerminalString(t as usize)),
                    ) == ty
                ||| exists|n: int|
                    0 <= n < self.grammar.nonterminals@.len()
                        && #[trigger] self.grammar.types.type_of(
                        Symbol::Nonterminal(NonterminalString(n as usize)),
                    ) == ty
            },
    {
        let count = self.symbol_count();
        let terminals = self.grammar.terminals@.len();
        self.lemma_types_distinct(count);
        if self.variant_types().contains(ty) {
            let i = self.lemma_type_source(count, ty);
            if i < terminals {
                assert(self.symbol(i) == Symbol::Terminal(TerminalString(i as usize)));
            } else {
                let n = i - terminals;
                assert(self.symbol(i) == Symbol::Nonterminal(NonterminalString(n as usize)));
            }
        }
        if exists|t: int|
            0 <= t < terminals && #[trigger] self.grammar.types.type_of(
                Symbol::Terminal(TerminalString(t as usize)),
            ) == ty {
            let t = choose|t: int|
                0 <= t < terminals && #[trigger] self.grammar.types.type_of(
                    Symbol::Terminal(TerminalString(t as usize)),
                ) == ty;
            assert(self.symbol(t) == Symbol::Terminal(TerminalString(t as usize)));
            self.lemma_type_listed(count, t);
        }
        if exists|n: int|
            0 <= n < self.grammar.nonterminals@.len() && #[trigger] self.grammar.types.type_of(
                Symbol::Nonterminal(NonterminalString(n as usize)),
            ) == ty {
            let n = choose|n: int|
                0 <= n < self.grammar.nonterminals@.len() && #[trigger] self.grammar.types.type_of(
                    Symbol::Nonterminal(NonterminalString(n as usize)),
                ) == ty;
            let i = terminals + n;
            assert(self.symbol(i) == Symbol::Nonterminal(NonterminalString(n as usize)));
            self.lemma_type_listed(count, i);
        }
    }

    proof fn lemma_type_source(self, n: nat, ty: TypeRepr) -> (i: int)
        requires
            self.types_to(n).contains(ty),
        ensures
            0 <= i < n,
            self.grammar.types.type_of(self.symbol(i)) == ty,
        decreases n,
    {
        let before = self.types_to((n - 1) as nat);
        if n > 0 && before.contains(ty) {
            self.lemma_type_source((n - 1) as nat, ty)
        } else {
            let k = self.types_to(n).index_of(ty);
            assert(self.types_to(n)[k] == ty);
            if k < before.len() {
                assert(before[k] == ty);
            }
            n - 1
        }
    }

    /// Variants are numbered by the first symbol that has their type: before the
    /// symbol that variant `k` is declared for, terminals first, exactly the types
    /// of the variants below it occur.
    pub proof fn law_variant_order(self, k: int) -> (i: int)
        requires
            0 <= k < self.variant_types().len(),
        ensures
            0 <= i < self.grammar.terminals@.len() + self.grammar.nonterminals@.len(),
            ({
                let terminals = self.grammar.terminals@.len();
                let symbol = if i < terminals {
                    Symbol::Terminal(TerminalString(i as usize))
                } else {
                    Symbol::Nonterminal(NonterminalString((i - terminals) as usize))
                };
                self.grammar.types.type_of(symbol) == self.variant_types()[k]
            }),
            forall|j: int|
                0 <= j < i ==> exists|b: int|
                    0 <= b < k && #[trigger] self.variant_types()[b] == self.grammar.types.type_of(
                        #[trigger] self.symbol(j),
                    ),
    {
        let i = self.lemma_first_symbol(self.symbol_count(), k);
        assert forall|j: int| 0 <= j < i implies exists|b: int|
            0 <= b < k && #[trigger] self.variant_types()[b] == self.grammar.types.type_of(
                #[trigger] self.symbol(j),
            ) by {
            self.lemma_type_listed(i as nat, j);
            let ty = self.grammar.types.type_of(self.symbol(j));
            let b = self.types_to(i as nat).index_of(ty);
            assert(self.variant_types()[b] == ty);
        }
        i
    }

    proof fn lemma_first_symbol(self, n: nat, k: int) -> (i: int)
        requires
            0 <= k < self.types_to(n).len(),
        ensures
            0 <= i < n,
            self.types_to(i as nat).len() == k,
            forall|b: int| 0 <= b < k ==> #[trigger] self.types_to(n)[b] == self.types_to(i as nat)[b],
            self.grammar.types.type_of(self.symbol(i)) == self.types_to(n)[k],
        decreases n,
    {
        let before = self.types_to((n - 1) as nat);
        if k < before.len() {
            let i = self.lemma_first_symbol((n - 1) as nat, k);
            assert(self.types_to(n)[k] == before[k]);
            assert forall|b: int| 0 <= b < k implies #[trigger] self.types_to(n)[b]
                == self.types_to(i as nat)[b] by {
                assert(self.types_to(n)[b] == before[b]);
            }
            i
        } else {
            n - 1
        }
    }

    /// Symbols are counted with the terminals first.
    pub proof fn law_symbols(self, i: int)
        ensures
            i < self.grammar.terminals@.len() ==> self.symbol(i) == Symbol::Terminal(
                TerminalString(i as usize),
            ),
            i >= self.grammar.terminals@.len() ==> self.symbol(i) == Symbol::Nonterminal(
                NonterminalString((i - self.grammar.terminals@.len()) as usize),
            ),
            self.symbol_count() == self.grammar.terminals@.len() + self.grammar.nonterminals@.len(),
    {
    }

    /// The type of symbols declares its parameters and clauses, and for each type
    /// that has a variant the numbered variant that holds a value of that type.
    pub proof fn law_symbol_type(self)
        ensures
            ({
                let p = self.grammar.prefix@;
                let parameters = join(", "@, self.symbol_parameters());
                let clauses = join(", "@, self.symbol_clauses());
                let types = self.variant_types();
                self.value_type_defn() == seq![
                    "#[allow(dead_code)]"@,
                    "enum "@ + p + "Symbol<"@ + parameters + ">"@,
                ] + (if self.symbol_clauses().len() == 0 {
                    seq![]
                } else {
                    seq![" where "@ + clauses]
                }) + seq![" {"@] + Seq::new(
                    types.len(),
                    |k: int|
                        "Variant"@ + decimal(k as nat) + "("@
                            + self.grammar.types.all@[types[k].0 as int].text@ + "),"@,
                ) + seq!["}"@]
            }),
    {
        let p = self.grammar.prefix@;
        let parameters = join(", "@, self.symbol_parameters());
        let clauses = join(", "@, self.symbol_clauses());
        let types = self.variant_types();
        let open = seq![
            "#[allow(dead_code)]"@,
            "enum "@ + p + "Symbol<"@ + parameters + ">"@,
        ] + (if self.symbol_clauses().len() == 0 {
            seq![]
        } else {
            seq![" where "@ + clauses]
        }) + seq![" {"@];
        assert(self.value_type_open() =~= open);
        assert(self.variant_lines(self.symbol_count()) =~= Seq::new(
            types.len(),
            |k: int|
                "Variant"@ + decimal(k as nat) + "("@
                    + self.grammar.types.all@[types[k].0 as int].text@ + "),"@,
        ));
    }

    /// A type parameter is declared by the type of symbols if and only if the type
    /// of a nonterminal, or the type that a terminal has of its own, refers to it;
    /// in the order of the grammar.
    pub proof fn law_symbol_parameters(self) -> (picked: Seq<int>)
        ensures
            increasing(picked),
            forall|i: int| #[trigger]
                picked.contains(i) <==> 0 <= i < self.grammar.type_parameters@.len() && {
                    ||| exists|n: int|
                        0 <= n < self.grammar.types.nonterminal_types@.len()
                            && self.grammar.types.all@[(
                        #[trigger] self.grammar.types.nonterminal_types@[n]).0 as int].referenced@.contains(
                        i as usize)
                    ||| exists|t: int|
                        0 <= t < self.grammar.types.terminal_types@.len() && (
                        #[trigger] self.grammar.types.terminal_types@[t]) is Some
                            && self.grammar.types.all@[(self.grammar.types.terminal_types@[t]->0).0 as int].referenced@.contains(
                        i as usize)
                },
            self.symbol_parameters() == Seq::new(
                picked.len(),
                |k: int|
                    match self.grammar.type_parameters@[picked[k]] {
                        TypeParameter::Lifetime(name) => name@,
                        TypeParameter::Id(name) => name@,
                    },
            ),
    {
        let n = self.grammar.type_parameters@.len();
        let picked = self.lemma_used_parameters(n);
        assert(self.symbol_parameters() =~= Seq::new(
            picked.len(),
            |k: int|
                match self.grammar.type_parameters@[picked[k]] {
                    TypeParameter::Lifetime(name) => name@,
                    TypeParameter::Id(name) => name@,
                },
        ));
        assert forall|i: int| #[trigger] picked.contains(i) <==> 0 <= i < n && {
            ||| exists|n: int|
                0 <= n < self.grammar.types.nonterminal_types@.len() && self.grammar.types.all@[(
                #[trigger] self.grammar.types.nonterminal_types@[n]).0 as int].referenced@.contains(
                i as usize)
            ||| exists|t: int|
                0 <= t < self.grammar.types.terminal_types@.len() && (
                #[trigger] self.grammar.types.terminal_types@[t]) is Some
                    && self.grammar.types.all@[(self.grammar.types.terminal_types@[t]->0).0 as int].referenced@.contains(
                i as usize)
        } by {
            assert(self.parameter_is_used(i as usize) <==> {
                ||| exists|n: int|
                    0 <= n < self.grammar.types.nonterminal_types@.len()
                        && self.grammar.types.all@[(
                    #[trigger] self.grammar.types.nonterminal_types@[n]).0 as int].referenced@.contains(
                    i as usize)
                ||| exists|t: int|
                    0 <= t < self.grammar.types.terminal_types@.len() && (
                    #[trigger] self.grammar.types.terminal_types@[t]) is Some
                        && self.grammar.types.all@[(self.grammar.types.terminal_types@[t]->0).0 as int].referenced@.contains(
                    i as usize)
            });
        }
        picked
    }

    proof fn lemma_used_parameters(self, n: nat) -> (picked: Seq<int>)
        requires
            n <= self.grammar.type_parameters@.len(),
        ensures
            increasing(picked),
            forall|i: int| #[trigger]
                picked.contains(i) <==> 0 <= i < n && self.parameter_is_used(i as usize),
            self.used_parameters(n).len() == picked.len(),
            forall|k: int|
                0 <= k < picked.len() ==> #[trigger] self.used_parameters(n)[k]
                    == self.grammar.type_parameters@[picked[k]].name(),
        decreases n,
    {
        if n == 0 {
            Seq::empty()
        } else {
            let before = self.lemma_used_parameters((n - 1) as nat);
            let picked = lemma_pick(before, n - 1, self.parameter_is_used((n - 1) as usize));
            let names = self.used_parameters((n - 1) as nat);
            assert forall|k: int| 0 <= k < picked.len() implies #[trigger] self.used_parameters(
                n,
            )[k] == self.grammar.type_parameters@[picked[k]].name() by {
                if k < before.len() {
                    assert(names[k] == self.grammar.type_parameters@[before[k]].name());
                }
            }
            picked
        }
    }

    /// A where clause stands with the type of symbols if and only if every parameter
    /// that it refers to is declared there; in the order of the grammar.
    pub proof fn law_symbol_clauses(self) -> (result: (Seq<int>, Seq<int>))
        ensures
            ({
                let (declared, picked) = result;
                &&& increasing(declared)
                &&& forall|i: int| #[trigger]
                    declared.contains(i) ==> 0 <= i < self.grammar.type_parameters@.len()
                &&& self.symbol_parameters() == Seq::new(
                    declared.len(),
                    |k: int|
                        match self.grammar.type_parameters@[declared[k]] {
                            TypeParameter::Lifetime(name) => name@,
                            TypeParameter::Id(name) => name@,
                        },
                )
                &&& increasing(picked)
                &&& forall|c: int| #[trigger]
                    picked.contains(c) <==> 0 <= c < self.grammar.where_clauses@.len()
                        && forall|k: int|
                        0 <= k < self.grammar.where_clauses@[c].referenced@.len()
                            ==> declared.contains(
                            #[trigger] self.grammar.where_clauses@[c].referenced@[k] as int,
                        )
                &&& self.symbol_clauses() == Seq::new(
                    picked.len(),
                    |k: int| self.grammar.where_clauses@[picked[k]].text@,
                )
            }),
    {
        let n = self.grammar.where_clauses@.len();
        let declared = self.lemma_used_parameters(self.grammar.type_parameters@.len());
        assert(self.symbol_parameters() =~= Seq::new(
            declared.len(),
            |k: int|
                match self.grammar.type_parameters@[declared[k]] {
                    TypeParameter::Lifetime(name) => name@,
                    TypeParameter::Id(name) => name@,
                },
        ));
        let picked = self.lemma_used_clauses(n);
        assert(self.symbol_clauses() =~= Seq::new(
            picked.len(),
            |k: int| self.grammar.where_clauses@[picked[k]].text@,
        ));
        assert forall|c: int| #[trigger] picked.contains(c) <==> 0 <= c < n && forall|k: int|
            0 <= k < self.grammar.where_clauses@[c].referenced@.len() ==> declared.contains(
                #[trigger] self.grammar.where_clauses@[c].referenced@[k] as int,
            ) by {
            let referenced = self.grammar.where_clauses@[c].referenced@;
            if self.clause_is_used(c) {
                assert forall|k: int| 0 <= k < referenced.len() implies declared.contains(
                    #[trigger] referenced[k] as int,
                ) by {
                    assert(self.parameter_is_used(referenced[k]));
                }
            }
            if forall|k: int|
                0 <= k < referenced.len() ==> declared.contains(#[trigger] referenced[k] as int) {
                assert forall|k: int| 0 <= k < referenced.len() implies {
                    &&& #[trigger] referenced[k] < self.grammar.type_parameters@.len()
                    &&& self.parameter_is_used(referenced[k])
                } by {
                    assert(declared.contains(referenced[k] as int));
                }
                assert(self.clause_is_used(c));
            }
        }
        (declared, picked)
    }

    proof fn lemma_used_clauses(self, n: nat) -> (picked: Seq<int>)
        requires
            n <= self.grammar.where_clauses@.len(),
        ensures
            increasing(picked),
            forall|i: int| #[trigger]
                picked.contains(i) <==> 0 <= i < n && self.clause_is_used(i),
            self.used_clauses(n).len() == picked.len(),
            forall|k: int|
                0 <= k < picked.len() ==> #[trigger] self.used_clauses(n)[k]
                    == self.grammar.where_clauses@[picked[k]].text@,
        decreases n,
    {
        if n == 0 {
            Seq::empty()
        } else {
            let before = self.lemma_used_clauses((n - 1) as nat);
            let picked = lemma_pick(before, n - 1, self.clause_is_used(n - 1));
            let texts = self.used_clauses((n - 1) as nat);
            assert forall|k: int| 0 <= k < picked.len() implies #[trigger] self.used_clauses(n)[k]
                == self.grammar.where_clauses@[picked[k]].text@ by {
                if k < before.len() {
                    assert(texts[k] == self.grammar.where_clauses@[before[k]].text@);
                }
            }
            picked
        }
    }

    /// The type of symbols is closed: whatever parameter the type of a nonterminal
    /// refers to, or the type that a terminal has of its own, the type of symbols
    /// declares it.
    pub proof fn law_symbol_type_is_closed(self, symbol: Symbol, i: int)
        requires
            self.grammar.wf(),
            self.grammar.has_symbol(symbol),
            symbol matches Symbol::Terminal(t) ==> self.grammar.types.terminal_types@[t.0 as int]
                is Some,
            0 <= i < self.grammar.type_parameters@.len(),
            self.grammar.types.all@[self.grammar.types.type_of(
                symbol,
            ).0 as int].referenced@.contains(i as usize),
        ensures
            self.symbol_parameters().contains(self.grammar.type_parameters@[i].name()),
    {
        let picked = self.law_symbol_parameters();
        match symbol {
            Symbol::Nonterminal(n) => {
                assert(self.grammar.types.nonterminal_types@[n.0 as int]
                    == self.grammar.types.type_of(symbol));
            },
            Symbol::Terminal(t) => {
                assert(self.grammar.types.terminal_types@[t.0 as int] == Some(
                    self.grammar.types.type_of(symbol),
                ));
            },
        }
        assert(picked.contains(i));
        let k = picked.index_of(i);
        assert(self.symbol_parameters()[k] == self.grammar.type_parameters@[i].name());
    }

    /// The variant of a type, as it is named everywhere: if variant `k` is declared
    /// for it, `Variantk`.
    pub proof fn law_variant_names(self, symbol: Symbol, k: int)
        requires
            0 <= k < self.variant_types().len(),
            self.variant_types()[k] == self.grammar.types.type_of(symbol),
        ensures
            self.variant_for(symbol) == "Variant"@ + decimal(k as nat),
            self.variant_of(self.variant_types()[k]) == "Variant"@ + decimal(k as nat),
            self.pop_name(self.variant_types()[k]) == self.grammar.prefix@ + "pop_"@ + (
            "Variant"@ + decimal(k as nat)),
    {
        self.lemma_type_position(self.symbol_count(), k);
    }

    /// The function that pops variant `k` takes the stack apart as it is built: it
    /// takes the value out of that variant, and returns the value, as one of the
    /// variant's type, between its locations, with the continuation beside it.
    /// Anything else is a mismatch.
    pub proof fn law_pop_functions(self, k: int)
        requires
            0 <= k < self.variant_types().len(),
        ensures
            ({
                let p = self.grammar.prefix@;
                let ty = self.variant_types()[k];
                let variant = "Variant"@ + decimal(k as nat);
                let stack = self.stack_type();
                let loc = self.grammar.types.loc();
                let value = self.grammar.types.all@[ty.0 as int].text@;
                let args = self.type_args();
                let type_parameters = self.fn_type_parameters();
                let result = "(("@ + loc + ", "@ + value + ", "@ + loc + "), "@ + p + "Goto<"@
                    + args + ">)"@;
                self.pop_fn(ty) == seq![
                    "#[allow(dead_code)]"@,
                    "fn "@ + p + "pop_"@ + variant + "<"@,
                ] + Seq::new(type_parameters.len(), |i: int| type_parameters[i] + ","@) + seq![
                    ">("@,
                    p + "stack: &mut "@ + stack + ","@,
                    ") -> "@ + result,
                ] + (if self.grammar.where_clauses@.len() == 0 {
                    seq![]
                } else {
                    seq!["where"@] + Seq::new(
                        self.grammar.where_clauses@.len(),
                        |i: int| self.grammar.where_clauses@[i].text@ + ","@,
                    )
                }) + seq![
                    "{"@,
                    "match "@ + p + "stack.pop() {"@,
                    "Some((("@ + p + "l, "@ + p + "Symbol::"@ + variant + "("@ + p + "v), "@ + p
                        + "r), "@ + p + "g)) => (("@ + p + "l, "@ + p + "v, "@ + p + "r), "@ + p
                        + "g),"@,
                    "_ => "@ + p + "symbol_type_mismatch(),"@,
                    "}"@,
                    "}"@,
                    ""@,
                ]
            }),
    {
        self.lemma_type_position(self.symbol_count(), k);
        self.lemma_pop_header(k);
        let ty = self.variant_types()[k];
        let header = self.pop_fn_header(ty);
        assert(seq!["#[allow(dead_code)]"@] + header =~= seq![
            "#[allow(dead_code)]"@,
            header[0],
        ] + header.skip(1));
    }

    proof fn lemma_pop_header(self, k: int)
        requires
            0 <= k < self.variant_types().len(),
        ensures
            ({
                let p = self.grammar.prefix@;
                let ty = self.variant_types()[k];
                let variant = "Variant"@ + decimal(k as nat);
                let stack = self.stack_type();
                let loc = self.grammar.types.loc();
                let value = self.grammar.types.all@[ty.0 as int].text@;
                let args = self.type_args();
                let type_parameters = self.fn_type_parameters();
                let result = "(("@ + loc + ", "@ + value + ", "@ + loc + "), "@ + p + "Goto<"@
                    + args + ">)"@;
                &&& self.pop_fn_header(ty).len() > 0
                &&& self.pop_fn_header(ty)[0] == "fn "@ + p + "pop_"@ + variant + "<"@
                &&& self.pop_fn_header(ty).skip(1) == Seq::new(
                    type_parameters.len(),
                    |i: int| type_parameters[i] + ","@,
                ) + seq![
                    ">("@,
                    p + "stack: &mut "@ + stack + ","@,
                    ") -> "@ + result,
                ] + (if self.grammar.where_clauses@.len() == 0 {
                    seq![]
                } else {
                    seq!["where"@] + Seq::new(
                        self.grammar.where_clauses@.len(),
                        |i: int| self.grammar.where_clauses@[i].text@ + ","@,
                    )
                })
            }),
    {
        self.lemma_type_position(self.symbol_count(), k);
        let p = self.grammar.prefix@;
        let ty = self.variant_types()[k];
        let variant = "Variant"@ + decimal(k as nat);
        let stack = self.stack_type();
        let loc = self.grammar.types.loc();
        let value = self.grammar.types.all@[ty.0 as int].text@;
        let args = self.type_args();
        let result = "(("@ + loc + ", "@ + value + ", "@ + loc + "), "@ + p + "Goto<"@ + args
            + ">)"@;
        let type_parameters = self.fn_type_parameters();
        let parameter = p + "stack: &mut "@ + stack;
        let header = self.pop_fn_header(ty);
        self.lemma_header(self.pop_name(ty), type_parameters, seq![parameter], result);
        reveal_strlit("fn ");
        reveal_strlit("pop_");
        assert("fn "@ + self.pop_name(ty) + "<"@ =~= "fn "@ + p + "pop_"@ + variant + "<"@);
        let middle = Seq::new(type_parameters.len(), |i: int| type_parameters[i] + ","@);
        assert(middle + seq![
            ">("@,
            p + "stack: &mut "@ + stack + ","@,
            ") -> "@ + result,
        ] =~= middle + seq![">("@] + Seq::new(1, |i: int| seq![parameter][i] + ","@) + seq![
            ") -> "@ + result,
        ]);
        assert(header.skip(1) =~= middle + seq![
            ">("@,
            p + "stack: &mut "@ + stack + ","@,
            ") -> "@ + result,
        ] + (if self.grammar.where_clauses@.len() == 0 {
            seq![]
        } else {
            seq!["where"@] + Seq::new(
                self.grammar.where_clauses@.len(),
                |i: int| self.grammar.where_clauses@[i].text@ + ","@,
            )
        }));
    }

    /// There is a pop function for each type that has a variant, in the order of
    /// the types.
    pub proof fn law_pop_functions_are_complete(self) -> (picked: Seq<int>)
        ensures
            increasing(picked),
            forall|i: int| #[trigger]
                picked.contains(i) <==> 0 <= i < self.grammar.types.all@.len()
                    && self.variant_types().contains(TypeRepr(i as usize)),
            self.pop_fns(self.grammar.types.all@.len()) == Seq::new(
                picked.len(),
                |k: int| self.pop_fn(TypeRepr(picked[k] as usize)),
            ).flatten_alt(),
    {
        self.lemma_pop_fns(self.grammar.types.all@.len())
    }

    proof fn lemma_pop_fns(self, n: nat) -> (picked: Seq<int>)
        ensures
            increasing(picked),
            forall|i: int| #[trigger]
                picked.contains(i) <==> 0 <= i < n && self.variant_types().contains(
                    TypeRepr(i as usize),
                ),
            self.pop_fns(n) == Seq::new(
                picked.len(),
                |k: int| self.pop_fn(TypeRepr(picked[k] as usize)),
            ).flatten_alt(),
        decreases n,
    {
        if n == 0 {
            let picked = Seq::<int>::empty();
            assert(Seq::new(picked.len(), |k: int| self.pop_fn(TypeRepr(picked[k] as usize)))
                =~= seq![]);
            picked
        } else {
            let before = self.lemma_pop_fns((n - 1) as nat);
            let pick = self.variant_types().contains(TypeRepr((n - 1) as usize));
            let picked = lemma_pick(before, n - 1, pick);
            let parts = Seq::new(picked.len(), |k: int| self.pop_fn(TypeRepr(picked[k] as usize)));
            let parts_before = Seq::new(
                before.len(),
                |k: int| self.pop_fn(TypeRepr(before[k] as usize)),
            );
            if pick {
                assert(parts.drop_last() =~= parts_before);
            } else {
                assert(parts =~= parts_before);
            }
            picked
        }
    }
}

} // verus!
