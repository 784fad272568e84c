//! The declarations of the generated code: the transition macro, the types, and
//! the helper functions.
use crate::codegen::generator::{
    entry, first_entry, has_entry, lemma_entry_exists, lemma_first_entry, with_entry, CodeGenerator,
};
use crate::codegen::input::{Function, Input};
use crate::grammar::{NonterminalString, Symbol, TerminalString, TypeRepr};
use crate::rust_write::{fn_header, RustWrite};
use crate::text::{decimal_text, join, join_text, views, Line};
use vstd::prelude::*;

verus! {

/// The `--cfg` flag under which the generated code uses the (nightly-only)
/// `become` keyword for its transitions instead of plain `return`.
pub const BECOME_CFG: &'static str = "lalrpop_tail_call_become";

impl<'a, 'grammar> Input<'a, 'grammar> {
    /// The macro that wraps every transition.
    pub open spec fn transition_macro(self) -> Seq<Line> {
        let p = self.prefix();
        let flag = BECOME_CFG@;
        seq![
            "// Every state/goto/reduce transition below is in"@,
            "// tail position and shares one signature. With"@,
            "// `--cfg "@ + flag + "` (nightly, requires the crate"@,
            "// to enable `#![feature(explicit_tail_calls)]`), transitions"@,
            "// use `become` and the parser is guaranteed to use O(1) native"@,
            "// stack. Otherwise they are sibling calls that LLVM turns into"@,
            "// jumps in optimized builds."@,
            "#[allow(unused_macros)]"@,
            "#[cfg("@ + flag + ")]"@,
            "macro_rules! "@ + p + "transition { ($call:expr) => { become $call }; }"@,
            "#[allow(unused_macros)]"@,
            "#[cfg(not("@ + flag + "))]"@,
            "macro_rules! "@ + p + "transition { ($call:expr) => { return $call }; }"@,
            ""@,
        ]
    }

    /// The declaration of variant `k`, for values of type `ty`.
    pub open spec fn variant_line(self, k: int, ty: TypeRepr) -> Line {
        let name = self.variant(k);
        let value = self.grammar.types.text_of(ty);
        name + "("@ + value + "),"@
    }

    /// The declarations of the variants for the types of the first `n` symbols.
    pub open spec fn variant_lines(self, n: nat) -> Seq<Line> {
        Seq::new(self.types_to(n).len(), |k: int| self.variant_line(k, self.types_to(n)[k]))
    }

    /// The declaration of the type of symbols, up to its first variant.
    pub open spec fn value_type_open(self) -> Seq<Line> {
        let p = self.prefix();
        let parameters = join(", "@, self.symbol_parameters());
        let clauses = join(", "@, self.symbol_clauses());
        let head = seq![
            "#[allow(dead_code)]"@,
            "enum "@ + p + "Symbol<"@ + parameters + ">"@,
        ];
        if self.symbol_clauses().len() == 0 {
            head.push(" {"@)
        } else {
            head.push(" where "@ + clauses).push(" {"@)
        }
    }

    /// The type of symbols: one variant for each type that a symbol has.
    pub open spec fn value_type_defn(self) -> Seq<Line> {
        self.value_type_open() + self.variant_lines(self.symbol_count()) + seq!["}"@]
    }

    /// The type of continuations: a function pointer for a state's goto row.
    pub open spec fn goto_type_defn(self) -> Seq<Line> {
        let p = self.prefix();
        let decls = self.type_decls();
        let args = self.type_args();
        let clauses = self.type_where();
        let params = self.fn_params();
        seq![
            "struct "@ + p + "Goto<"@ + decls + ">(fn("@ + params + ")) where "@ + clauses + ";"@,
            "impl<"@ + decls + "> Copy for "@ + p + "Goto<"@ + args + "> where "@ + clauses
                + " {}"@,
            "impl<"@ + decls + "> Clone for "@ + p + "Goto<"@ + args + "> where "@ + clauses
                + " { fn clone(&self) -> Self { *self } }"@,
        ]
    }

    /// The type of a running parser.
    pub open spec fn parser_type_defn(self) -> Seq<Line> {
        let p = self.prefix();
        let decls = self.type_decls();
        let clauses = self.type_where();
        let triple = self.grammar.types.triple();
        let stack = self.stack_type();
        let result = self.result_text();
        let phantom = self.phantom_type();
        seq![
            "struct "@ + p + "Parser<"@ + decls + "> where "@ + clauses + " {"@,
            p + "tokens: "@ + p + "TOKENS,"@,
            p + "lookahead: Option<"@ + triple + ">,"@,
            p + "stack: "@ + stack + ","@,
            p + "reduced_nt: usize,"@,
            p + "result: Option<"@ + result + ">,"@,
            p + "phantom: "@ + phantom + ","@,
            "}"@,
        ]
    }

    /// The header of the function that fetches the next token.
    pub open spec fn next_token_header(self) -> Seq<Line> {
        let p = self.prefix();
        let phantom = self.phantom_type();
        let triple = self.grammar.types.triple();
        let error = self.grammar.types.error();
        let parameters = seq![
            p + "tokens: &mut "@ + p + "TOKENS"@,
            "_: "@ + phantom,
        ];
        let name = self.function_name(Function::NextToken);
        let result = "Result<Option<"@ + triple + ">, "@ + error + ">"@;
        fn_header(
            name,
            self.fn_type_parameters(),
            parameters,
            result,
            self.grammar.where_clause_texts(),
        )
    }

    /// The functions that fetch the next token and that report a wrong symbol.
    pub open spec fn helper_fns(self) -> Seq<Line> {
        let p = self.prefix();
        self.next_token_header() + seq![
            "{"@,
            "match "@ + p + "tokens.next() {"@,
            "Some(Ok("@ + p + "v)) => Ok(Some("@ + p + "v)),"@,
            "Some(Err("@ + p + "e)) => Err("@ + p + "e),"@,
            "None => Ok(None),"@,
            "}"@,
            "}"@,
            ""@,
            "#[inline(never)]"@,
            "#[allow(dead_code)]"@,
            "fn "@ + p + "symbol_type_mismatch() -> ! {"@,
            "panic!(\"symbol type mismatch\")"@,
            "}"@,
        ]
    }

    /// The header of the function that pops a value of type `ty`.
    pub open spec fn pop_fn_header(self, ty: TypeRepr) -> Seq<Line> {
        let p = self.prefix();
        let stack = self.stack_type();
        let loc = self.grammar.types.loc();
        let value = self.grammar.types.text_of(ty);
        let args = self.type_args();
        let parameter = p + "stack: &mut "@ + stack;
        let result = "(("@ + loc + ", "@ + value + ", "@ + loc + "), "@ + p + "Goto<"@ + args
            + ">)"@;
        fn_header(
            self.pop_name(ty),
            self.fn_type_parameters(),
            seq![parameter],
            result,
            self.grammar.where_clause_texts(),
        )
    }

    /// The function that pops a value of type `ty`.
    pub open spec fn pop_fn(self, ty: TypeRepr) -> Seq<Line> {
        let p = self.prefix();
        let variant = self.variant_of(ty);
        seq!["#[allow(dead_code)]"@] + self.pop_fn_header(ty) + seq![
            "{"@,
            "match "@ + p + "stack.pop() {"@,
            "Some((("@ + p + "l, "@ + p + "Symbol::"@ + variant + "("@ + p + "v), "@ + p
                + "r), "@ + p + "g)) => (("@ + p + "l, "@ + p + "v, "@ + p + "r), "@ + p
                + "g),"@,
            "_ => "@ + p + "symbol_type_mismatch(),"@,
            "}"@,
            "}"@,
            ""@,
        ]
    }

    /// The functions that pop a value, for those of the first `n` types that a
    /// symbol has.
    pub open spec fn pop_fns(self, n: nat) -> Seq<Line>
        decreases n,
    {
        if n == 0 {
            seq![]
        } else {
            let before = self.pop_fns((n - 1) as nat);
            let ty = TypeRepr((n - 1) as usize);
            if self.variant_types().contains(ty) {
                before + self.pop_fn(ty)
            } else {
                before
            }
        }
    }

    /// The types of the first `n` symbols are listed once each.
    pub proof fn lemma_types_distinct(self, n: nat)
        ensures
            self.types_to(n).no_duplicates(),
        decreases n,
    {
        if n > 0 {
            self.lemma_types_distinct((n - 1) as nat);
        }
    }

    /// In the list of types, a type stands at one position.
    pub proof fn lemma_type_position(self, n: nat, k: int)
        requires
            0 <= k < self.types_to(n).len(),
        ensures
            self.types_to(n).index_of(self.types_to(n)[k]) == k,
    {
        self.lemma_types_distinct(n);
        let types = self.types_to(n);
        let j = types.index_of(types[k]);
        assert(types.contains(types[k]));
        assert(0 <= j < types.len() && types[j] == types[k]);
    }

    /// The type of each of the first `n` symbols is listed.
    pub proof fn lemma_type_listed(self, n: nat, i: int)
        requires
            0 <= i < n,
        ensures
            self.types_to(n).contains(self.grammar.types.type_of(self.symbol(i))),
        decreases n,
    {
        let before = self.types_to((n - 1) as nat);
        let ty = self.grammar.types.type_of(self.symbol(n - 1));
        if i < n - 1 {
            self.lemma_type_listed((n - 1) as nat, i);
            let k = before.index_of(self.grammar.types.type_of(self.symbol(i)));
            assert(self.types_to(n)[k] == before[k]);
        } else if !before.contains(ty) {
            assert(self.types_to(n)[before.len() as int] == ty);
        }
    }

    /// The next symbol adds a variant if no earlier symbol has its type.
    pub proof fn lemma_variant_lines_step(self, n: nat)
        ensures
            self.variant_lines(n + 1) == self.variant_lines(n) + if self.types_to(n).contains(
                self.grammar.types.type_of(self.symbol(n as int)),
            ) {
                seq![]
            } else {
                seq![
                    self.variant_line(
                        self.types_to(n).len() as int,
                        self.grammar.types.type_of(self.symbol(n as int)),
                    ),
                ]
            },
    {
        let ty = self.grammar.types.type_of(self.symbol(n as int));
        if self.types_to(n).contains(ty) {
            assert(self.variant_lines(n + 1) =~= self.variant_lines(n) + seq![]);
        } else {
            let line = self.variant_line(self.types_to(n).len() as int, ty);
            assert(self.variant_lines(n + 1) =~= self.variant_lines(n) + seq![line]);
        }
    }

    /// Listing more symbols keeps the position of a type.
    pub proof fn lemma_type_position_kept(self, n: nat, ty: TypeRepr)
        requires
            self.types_to(n).contains(ty),
        ensures
            self.types_to(n + 1).index_of(ty) == self.types_to(n).index_of(ty),
    {
        let k = self.types_to(n).index_of(ty);
        assert(self.types_to(n + 1)[k] == ty);
        self.lemma_type_position(n + 1, k);
    }
}

impl<'a, 'grammar> CodeGenerator<'a, 'grammar> {
    /// The `transition!` macro wrapping every tail call. The `become`
    /// definition lives inside a macro so that stable compilers never have to
    /// *parse* a `become` expression (the feature is gated at parse time,
    /// even under `#[cfg]`); an unexpanded macro body is only lexed.
    pub fn write_transition_macro(&self, out: &mut RustWrite)
        ensures
            final(out)@ == old(out)@ + self.input.transition_macro(),
    {
        let p = self.prefix();
        let flag = BECOME_CFG;
        out.writeln("// Every state/goto/reduce transition below is in".to_owned());
        out.writeln("// tail position and shares one signature. With".to_owned());
        out.writeln(
            "// `--cfg ".to_owned().concat(flag).concat("` (nightly, requires the crate"),
        );
        out.writeln("// to enable `#![feature(explicit_tail_calls)]`), transitions".to_owned());
        out.writeln("// use `become` and the parser is guaranteed to use O(1) native".to_owned());
        out.writeln("// stack. Otherwise they are sibling calls that LLVM turns into".to_owned());
        out.writeln("// jumps in optimized builds.".to_owned());
        out.writeln("#[allow(unused_macros)]".to_owned());
        out.writeln("#[cfg(".to_owned().concat(flag).concat(")]"));
        out.writeln(
            "macro_rules! ".to_owned().concat(p)
                .concat("transition { ($call:expr) => { become $call }; }"),
        );
        out.writeln("#[allow(unused_macros)]".to_owned());
        out.writeln("#[cfg(not(".to_owned().concat(flag).concat("))]"));
        out.writeln(
            "macro_rules! ".to_owned().concat(p)
                .concat("transition { ($call:expr) => { return $call }; }"),
        );
        out.writeln("".to_owned());
        assert(out@ =~= old(out)@ + self.input.transition_macro());
    }

    /// Declares the type of symbols, and gives each symbol its variant.
    pub fn write_value_type_defn(&mut self, out: &mut RustWrite)
        requires
            old(self).wf(),
            old(self).names_to(0),
        ensures
            final(self).input == old(self).input,
            final(self).wf(),
            final(self).named(),
            final(out)@ == old(out)@ + old(self).input.value_type_defn(),
    {
        let p = self.prefix();
        // sometimes some of the variants are not used, particularly
        // if we are generating multiple parsers from the same file:
        out.writeln("#[allow(dead_code)]".to_owned());
        let parameter_list = join_text(", ", &self.custom.symbol_type_params);
        let parameters = parameter_list.as_str();
        out.writeln(
            "enum ".to_owned().concat(p).concat("Symbol<").concat(parameters).concat(">"),
        );
        assert(self.input.symbol_clauses().len() == self.custom.symbol_where_clauses@.len());
        if !self.custom.symbol_where_clauses.is_empty() {
            let clause_list = join_text(", ", &self.custom.symbol_where_clauses);
            let clauses = clause_list.as_str();
            out.writeln(" where ".to_owned().concat(clauses));
        }
        out.writeln(" {".to_owned());
        assert(out@ =~= old(out)@ + self.input.value_type_open());
        let ghost input = self.input;
        let ghost head = old(out)@ + input.value_type_open();
        assert(out@ =~= head + input.variant_lines(0));

        // make one variant per terminal
        let terminals: usize = self.input.grammar.terminals.len();
        let mut t: usize = 0;
        while t < terminals
            invariant
                self.input == input,
                self.wf(),
                terminals == input.grammar.terminals.len(),
                t <= terminals,
                self.names_to(t as nat),
                out@ == head + input.variant_lines(t as nat),
            decreases terminals - t,
        {
            let ty: TypeRepr = self.input.grammar.types.terminal_type(TerminalString(t));
            let ghost previous = *self;
            self.add_symbol_variant(out, Symbol::Terminal(TerminalString(t)), ty);
            proof {
                Self::lemma_names_next(previous, *self, t as nat);
                input.lemma_variant_lines_step(t as nat);
                assert(out@ =~= head + input.variant_lines((t + 1) as nat));
            }
            t += 1;
        }

        // make one variant per nonterminal
        let nonterminals: usize = self.input.grammar.nonterminals.len();
        let mut n: usize = 0;
        while n < nonterminals
            invariant
                self.input == input,
                self.wf(),
                terminals == input.grammar.terminals.len(),
                nonterminals == input.grammar.nonterminals.len(),
                n <= nonterminals,
                self.names_to((terminals + n) as nat),
                out@ == head + input.variant_lines((terminals + n) as nat),
            decreases nonterminals - n,
        {
            let ty: TypeRepr = self.input.grammar.types.nonterminal_type(NonterminalString(n));
            let ghost previous = *self;
            self.add_symbol_variant(out, Symbol::Nonterminal(NonterminalString(n)), ty);
            proof {
                Self::lemma_names_next(previous, *self, (terminals + n) as nat);
                input.lemma_variant_lines_step((terminals + n) as nat);
                assert(out@ =~= head + input.variant_lines((terminals + n + 1) as nat));
            }
            n += 1;
        }
        out.writeln("}".to_owned());
        assert(out@ =~= old(out)@ + input.value_type_defn());
    }

    fn position_of_type(&self, ty: TypeRepr) -> (position: Option<usize>)
        ensures
            match position {
                Some(k) => first_entry(self.custom.variant_table(), ty, k as int),
                None => !has_entry(self.custom.variant_table(), ty),
            },
    {
        let mut k: usize = 0;
        while k < self.custom.variants.len()
            invariant
                k <= self.custom.variants.len(),
                forall|j: int| 0 <= j < k ==> (#[trigger] self.custom.variants@[j]).0 != ty,
            decreases self.custom.variants.len() - k,
        {
            if self.custom.variants[k].0 == ty {
                proof {
                    let table = self.custom.variant_table();
                    assert forall|j: int| 0 <= j < k implies (#[trigger] table[j]).0 != ty by {
                        assert(self.custom.variants@[j].0 != ty);
                    }
                }
                return Some(k);
            }
            k += 1;
        }
        proof {
            let table = self.custom.variant_table();
            assert forall|i: int| !first_entry(table, ty, i) by {
                if 0 <= i < table.len() {
                    assert(self.custom.variants@[i].0 != ty);
                }
            }
        }
        None
    }

    /// Gives a symbol the variant for a type, which is declared here if the type
    /// has none yet.
    pub fn add_symbol_variant(&mut self, out: &mut RustWrite, symbol: Symbol, ty: TypeRepr)
        requires
            old(self).input.grammar.types.knows(ty),
        ensures
            final(self).input == old(self).input,
            final(self).custom.same_but_variants(old(self).custom),
            final(self).custom.variant_table() == if has_entry(
                old(self).custom.variant_table(),
                ty,
            ) {
                old(self).custom.variant_table()
            } else {
                old(self).custom.variant_table().push(
                    (ty, old(self).input.variant(old(self).custom.variants@.len() as int)),
                )
            },
            final(self).custom.name_table() == with_entry(
                old(self).custom.name_table(),
                symbol,
                entry(final(self).custom.variant_table(), ty),
            ),
            final(out)@ == old(out)@ + if has_entry(old(self).custom.variant_table(), ty) {
                seq![]
            } else {
                seq![
                    old(self).input.variant_line(old(self).custom.variants@.len() as int, ty),
                ]
            },
    {
        let ghost input = self.input;
        let ghost before = self.custom.variant_table();
        let ghost names = self.custom.name_table();
        let name: String;
        match self.position_of_type(ty) {
            Some(k) => {
                name = self.custom.variants[k].1.clone();
                proof {
                    lemma_first_entry(before, ty, k as int);
                    assert(old(out)@ + Seq::<Line>::empty() =~= old(out)@);
                }
            },
            None => {
                let len: usize = self.custom.variants.len();
                name = "Variant".to_owned().concat(decimal_text(len).as_str());
                let variant = name.as_str();
                let value = self.input.grammar.types.text(ty);
                out.writeln(variant.to_owned().concat("(").concat(value).concat("),"));
                self.custom.variants.push((ty, name.clone()));
                proof {
                    let after = self.custom.variant_table();
                    assert(after =~= before.push((ty, input.variant(len as int))));
                    assert(out@ =~= old(out)@ + seq![input.variant_line(len as int, ty)]);
                    assert forall|j: int| 0 <= j < len implies (#[trigger] after[j]).0 != ty by {
                        if before[j].0 == ty {
                            lemma_entry_exists(before, ty, j);
                        }
                    }
                    lemma_first_entry(after, ty, len as int);
                }
            },
        }
        assert(name@ == entry(self.custom.variant_table(), ty));
        assert(self.custom.name_table() =~= names);
        match self.position_of_symbol(symbol) {
            Some(i) => {
                proof {
                    lemma_first_entry(names, symbol, i as int);
                }
                self.custom.variant_names[i] = (symbol, name);
                assert(self.custom.name_table() =~= names.update(i as int, (symbol, name@)));
            },
            None => {
                self.custom.variant_names.push((symbol, name));
                assert(self.custom.name_table() =~= names.push((symbol, name@)));
            },
        }
    }

    /// A generator that has named the first `n` symbols, and then names the next
    /// one, has named one more.
    proof fn lemma_names_next(before: Self, after: Self, n: nat)
        requires
            before.names_to(n),
            n < before.input.symbol_count(),
            after.input == before.input,
            ({
                let symbol = before.input.symbol(n as int);
                let ty = before.input.grammar.types.type_of(symbol);
                &&& after.custom.variant_table() == if has_entry(
                    before.custom.variant_table(),
                    ty,
                ) {
                    before.custom.variant_table()
                } else {
                    before.custom.variant_table().push(
                        (ty, before.input.variant(before.custom.variants@.len() as int)),
                    )
                }
                &&& after.custom.name_table() == with_entry(
                    before.custom.name_table(),
                    symbol,
                    entry(after.custom.variant_table(), ty),
                )
            }),
        ensures
            after.names_to(n + 1),
            ({
                let ty = before.input.grammar.types.type_of(before.input.symbol(n as int));
                has_entry(before.custom.variant_table(), ty) == before.input.types_to(n).contains(
                    ty,
                )
            }),
    {
        let input = before.input;
        let symbol = input.symbol(n as int);
        let ty = input.grammar.types.type_of(symbol);
        let types = input.types_to(n);
        let next = input.types_to(n + 1);
        let table = before.custom.variant_table();
        let after_table = after.custom.variant_table();
        let names = before.custom.name_table();
        assert forall|k: int| 0 <= k < types.len() implies #[trigger] table[k] == (
            types[k],
            input.variant(k),
        ) by {
            assert(before.custom.variants@[k].0 == types[k]);
        }
        if types.contains(ty) {
            lemma_entry_exists(table, ty, types.index_of(ty));
            assert(next == types);
        } else {
            if has_entry(table, ty) {
                let k = choose|k: int| first_entry(table, ty, k);
                assert(types[k] == ty);
            }
            assert(next == types.push(ty));
        }
        assert forall|k: int| 0 <= k < next.len() implies #[trigger] after_table[k] == (
            next[k],
            input.variant(k),
        ) by {
            if k < types.len() {
                assert(table[k] == (types[k], input.variant(k)));
            }
        }
        assert(after_table.len() == after.custom.variants@.len());
        assert(after_table.len() == next.len());
        assert forall|k: int| #![trigger after.custom.variants@[k]] 0 <= k < next.len() implies {
            &&& after.custom.variants@[k].0 == next[k]
            &&& after.custom.variants@[k].1@ == input.variant(k)
        } by {
            assert(after_table[k] == (next[k], input.variant(k)));
        }
        input.lemma_type_listed(n + 1, n as int);
        let at = next.index_of(ty);
        assert(after_table[at].0 == ty);
        lemma_entry_exists(after_table, ty, at);
        let first = choose|k: int| first_entry(after_table, ty, k);
        assert(next[first] == ty);
        input.lemma_type_position(n + 1, first);
        assert(after_table[first] == (next[first], input.variant(first)));
        assert(entry(after_table, ty) == input.variant(at));
        if has_entry(names, symbol) {
            let i = choose|i: int| first_entry(names, symbol, i);
            assert(before.custom.variant_names@[i].0 == input.symbol(i));
            assert(input.grammar.terminals.len() == input.grammar.terminals@.len());
            assert(input.grammar.nonterminals.len() == input.grammar.nonterminals@.len());
        }
        assert(after.custom.name_table() == names.push((symbol, input.variant(at))));
        assert(after.custom.name_table().len() == after.custom.variant_names@.len());
        assert forall|i: int| #![trigger after.custom.variant_names@[i]] 0 <= i < n + 1 implies {
            &&& after.custom.variant_names@[i].0 == input.symbol(i)
            &&& after.custom.variant_names@[i].1@ == input.variant(
                next.index_of(input.grammar.types.type_of(input.symbol(i))),
            )
        } by {
            assert(after.custom.name_table()[i] == (
                after.custom.variant_names@[i].0,
                after.custom.variant_names@[i].1@,
            ));
            if i < n {
                assert(names[i] == after.custom.name_table()[i]);
                assert(before.custom.variant_names@[i].0 == input.symbol(i));
                input.lemma_type_listed(n, i);
                input.lemma_type_position_kept(n, input.grammar.types.type_of(input.symbol(i)));
            }
        }
    }

    /// The continuation type: a newtype around the fn pointer for a state's
    /// GOTO row. (The newtype breaks the type recursion: an entry contains a
    /// `Goto` which contains a fn taking `&mut Parser` which contains a `Vec`
    /// of entries.)
    pub fn write_goto_type_defn(&self, out: &mut RustWrite)
        requires
            self.wf(),
        ensures
            final(out)@ == old(out)@ + self.input.goto_type_defn(),
    {
        let p = self.prefix();
        let type_decls = self.parser_type_decls();
        let decls = type_decls.as_str();
        let type_args = self.parser_type_args();
        let args = type_args.as_str();
        let where_clauses = self.parser_where_clauses();
        let clauses = where_clauses.as_str();
        let fn_params = self.unified_fn_params();
        let params = fn_params.as_str();
        out.writeln(
            "struct ".to_owned().concat(p).concat("Goto<").concat(decls).concat(">(fn(")
                .concat(params).concat(")) where ").concat(clauses).concat(";"),
        );
        // Fn pointers are `Copy`, but `derive` would add unwanted bounds on
        // the type parameters, so implement by hand:
        out.writeln(
            "impl<".to_owned().concat(decls).concat("> Copy for ").concat(p).concat("Goto<")
                .concat(args).concat("> where ").concat(clauses).concat(" {}"),
        );
        out.writeln(
            "impl<".to_owned().concat(decls).concat("> Clone for ").concat(p).concat("Goto<")
                .concat(args).concat("> where ").concat(clauses)
                .concat(" { fn clone(&self) -> Self { *self } }"),
        );
        assert(out@ =~= old(out)@ + self.input.goto_type_defn());
    }

    /// Declares the type of a running parser.
    pub fn write_parser_type_defn(&self, out: &mut RustWrite)
        requires
            self.wf(),
        ensures
            final(out)@ == old(out)@ + self.input.parser_type_defn(),
    {
        let p = self.prefix();
        let type_decls = self.parser_type_decls();
        let decls = type_decls.as_str();
        let where_clauses = self.parser_where_clauses();
        let clauses = where_clauses.as_str();
        out.writeln(
            "struct ".to_owned().concat(p).concat("Parser<").concat(decls).concat("> where ")
                .concat(clauses).concat(" {"),
        );
        out.writeln(p.to_owned().concat("tokens: ").concat(p).concat("TOKENS,"));
        // The lookahead lives in the parser struct rather than being passed
        // as an argument: the triple can be large, and a large by-value
        // argument is passed through the caller's stack frame, which would
        // defeat the sibling-call optimization that keeps the native stack
        // flat in optimized builds.
        let triple_type = self.triple_type();
        let triple = triple_type.as_str();
        out.writeln(p.to_owned().concat("lookahead: Option<").concat(triple).concat(">,"));
        // Each entry pairs the semantic value of a stacked symbol with the
        // GOTO continuation of the state that pushed it, i.e. the state that
        // becomes current again if a reduction pops down to this entry.
        let stack_type = self.stack_type();
        let stack = stack_type.as_str();
        out.writeln(p.to_owned().concat("stack: ").concat(stack).concat(","));
        // Which nonterminal was just reduced; the goto functions dispatch on
        // this. (It is a field rather than an argument so that all parser
        // functions can share one signature, as `become` requires.)
        out.writeln(p.to_owned().concat("reduced_nt: usize,"));
        // The final outcome of the parse. Like the lookahead, this lives in
        // the parser struct instead of flowing through the return values:
        // the success and error types can be large, and a large return value
        // is written through a hidden pointer into the caller's stack frame,
        // which would defeat the sibling-call optimization. Every parser
        // function returns `()`; whoever ends the parse (accept or error)
        // fills this in.
        let result_type = self.result_type();
        let result = result_type.as_str();
        out.writeln(p.to_owned().concat("result: Option<").concat(result).concat(">,"));
        let phantom_type = self.phantom_data_type();
        let phantom = phantom_type.as_str();
        out.writeln(p.to_owned().concat("phantom: ").concat(phantom).concat(","));
        out.writeln("}".to_owned());
        assert(out@ =~= old(out)@ + self.input.parser_type_defn());
    }

    /// Writes the functions that fetch the next token and that report a wrong
    /// symbol.
    pub fn write_helper_fns(&self, out: &mut RustWrite)
        requires
            self.wf(),
        ensures
            final(out)@ == old(out)@ + self.input.helper_fns(),
    {
        let p = self.prefix();
        // next_token
        let phantom_type = self.phantom_data_type();
        let phantom = phantom_type.as_str();
        let triple_type = self.triple_type();
        let triple = triple_type.as_str();
        let error = self.input.grammar.types.parse_error_type();
        let mut parameters: Vec<String> = Vec::new();
        let tokens_parameter = p.to_owned().concat("tokens: &mut ").concat(p).concat("TOKENS");
        let phantom_parameter = "_: ".to_owned().concat(phantom);
        let ghost parameter_texts = seq![tokens_parameter@, phantom_parameter@];
        parameters.push(tokens_parameter);
        parameters.push(phantom_parameter);
        assert(views(parameters@) =~= parameter_texts);
        let name = p.to_owned().concat("next_token");
        let result = "Result<Option<".to_owned().concat(triple).concat(">, ").concat(error)
            .concat(">");
        out.write_fn_header(
            name.as_str(),
            &self.fn_type_parameter_list(),
            &parameters,
            result.as_str(),
            &self.input.grammar.where_clause_list(),
        );
        assert(out@ == old(out)@ + self.input.next_token_header());
        out.writeln("{".to_owned());
        out.writeln("match ".to_owned().concat(p).concat("tokens.next() {"));
        out.writeln(
            "Some(Ok(".to_owned().concat(p).concat("v)) => Ok(Some(").concat(p).concat("v)),"),
        );
        out.writeln(
            "Some(Err(".to_owned().concat(p).concat("e)) => Err(").concat(p).concat("e),"),
        );
        out.writeln("None => Ok(None),".to_owned());
        out.writeln("}".to_owned());
        out.writeln("}".to_owned());
        out.writeln("".to_owned());

        // symbol_type_mismatch
        out.writeln("#[inline(never)]".to_owned());
        out.writeln("#[allow(dead_code)]".to_owned());
        out.writeln("fn ".to_owned().concat(p).concat("symbol_type_mismatch() -> ! {"));
        out.writeln("panic!(\"symbol type mismatch\")".to_owned());
        out.writeln("}".to_owned());
        assert(out@ =~= old(out)@ + self.input.helper_fns());
    }

    fn write_pop_fn(&self, out: &mut RustWrite, ty: TypeRepr, variant: &str)
        requires
            self.wf(),
            self.input.grammar.types.knows(ty),
            variant@ == self.input.variant_of(ty),
        ensures
            final(out)@ == old(out)@ + self.input.pop_fn(ty),
    {
        let p = self.prefix();
        let stack_type = self.stack_type();
        let stack = stack_type.as_str();
        let loc = self.input.grammar.types.terminal_loc_type();
        let value = self.input.grammar.types.text(ty);
        let type_args = self.parser_type_args();
        let args = type_args.as_str();
        let mut parameters: Vec<String> = Vec::new();
        let parameter = p.to_owned().concat("stack: &mut ").concat(stack);
        let ghost parameter_text = parameter@;
        parameters.push(parameter);
        assert(views(parameters@) =~= seq![parameter_text]);
        let result = "((".to_owned().concat(loc).concat(", ").concat(value).concat(", ")
            .concat(loc).concat("), ").concat(p).concat("Goto<").concat(args).concat(">)");
        let name = p.to_owned().concat("pop_").concat(variant);
        out.writeln("#[allow(dead_code)]".to_owned());
        out.write_fn_header(
            name.as_str(),
            &self.fn_type_parameter_list(),
            &parameters,
            result.as_str(),
            &self.input.grammar.where_clause_list(),
        );
        assert(out@ =~= old(out)@ + (seq!["#[allow(dead_code)]"@] + self.input.pop_fn_header(ty)));
        out.writeln("{".to_owned());
        out.writeln("match ".to_owned().concat(p).concat("stack.pop() {"));
        out.writeln(
            "Some(((".to_owned().concat(p).concat("l, ").concat(p).concat("Symbol::")
                .concat(variant).concat("(").concat(p).concat("v), ").concat(p).concat("r), ")
                .concat(p).concat("g)) => ((").concat(p).concat("l, ").concat(p).concat("v, ")
                .concat(p).concat("r), ").concat(p).concat("g),"),
        );
        out.writeln("_ => ".to_owned().concat(p).concat("symbol_type_mismatch(),"));
        out.writeln("}".to_owned());
        out.writeln("}".to_owned());
        out.writeln("".to_owned());
        assert(out@ =~= old(out)@ + self.input.pop_fn(ty));
    }

    /// One `pop_VariantN` helper per symbol type: pops the top stack entry
    /// and downcasts it to a spanned value of that type (panicking on a
    /// type mismatch, which would be a bug in the generated parser). See
    /// `emit_pop_handle` for why popping and downcasting are fused into a
    /// helper function instead of being emitted inline in the reduce code.
    pub fn write_pop_fns(&self, out: &mut RustWrite)
        requires
            self.wf(),
            self.named(),
        ensures
            final(out)@ == old(out)@ + self.input.pop_fns(self.input.grammar.types.all@.len()),
    {
        let types: usize = self.input.grammar.types.all.len();
        let mut i: usize = 0;
        assert(out@ =~= old(out)@ + self.input.pop_fns(0));
        while i < types
            invariant
                self.wf(),
                self.named(),
                types == self.input.grammar.types.all.len(),
                i <= types,
                out@ == old(out)@ + self.input.pop_fns(i as nat),
            decreases types - i,
        {
            let ty = TypeRepr(i);
            let ghost listed = self.input.variant_types();
            match self.position_of_type(ty) {
                Some(k) => {
                    proof {
                        assert(listed[k as int] == ty);
                        self.input.lemma_type_position(self.input.symbol_count(), k as int);
                    }
                    self.write_pop_fn(out, ty, self.custom.variants[k].1.as_str());
                },
                None => {
                    proof {
                        assert forall|k: int| 0 <= k < listed.len() implies listed[k] != ty by {
                            assert(self.custom.variants@[k].0 == listed[k]);
                            if listed[k] == ty {
                                lemma_entry_exists(self.custom.variant_table(), ty, k);
                            }
                        }
                    }
                },
            }
            i += 1;
            assert(out@ =~= old(out)@ + self.input.pop_fns(i as nat));
        }
    }
}

} // verus!
