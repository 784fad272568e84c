//! The names in the generated code tell apart what they name.
use crate::codegen::input::{Function, Input};
use crate::grammar::{ProductionView, Symbol};
use crate::text::{decimal, law_decimal_tells_numbers_apart, Line};
use vstd::prelude::*;

verus! {

impl<'a, 'grammar> Input<'a, 'grammar> {
    /// The first two characters behind the prefix of a function's name.
    spec fn initials(function: Function) -> (char, char) {
        match function {
            Function::State(_) => ('s', 't'),
            Function::Goto(_) => ('g', 'o'),
            Function::Reduce(_) => ('r', 'e'),
            Function::CallAction(_) => ('c', 'a'),
            Function::Pop(_) => ('p', 'o'),
            Function::NextToken => ('n', 'e'),
            Function::SymbolTypeMismatch => ('s', 'y'),
        }
    }

    proof fn lemma_initials(self, function: Function)
        ensures
            self.function_name(function).len() >= self.prefix().len() + 2,
            self.function_name(function)[self.prefix().len() as int] == Self::initials(function).0,
            self.function_name(function)[self.prefix().len() as int + 1] == Self::initials(function).1,
    {
        reveal_strlit("state");
        reveal_strlit("goto");
        reveal_strlit("reduce");
        reveal_strlit("call_action");
        reveal_strlit("pop_");
        reveal_strlit("next_token");
        reveal_strlit("symbol_type_mismatch");
    }

    /// No two functions of the generated module share a name.
    pub proof fn law_functions_have_distinct_names(self, a: Function, b: Function)
        requires
            self.function_name(a) == self.function_name(b),
        ensures
            a == b,
    {
        let p = self.prefix();
        self.lemma_initials(a);
        self.lemma_initials(b);
        match (a, b) {
            (Function::State(m), Function::State(n)) => {
                lemma_same_tail(p + "state"@, decimal(m), decimal(n));
                law_decimal_tells_numbers_apart(m, n);
            },
            (Function::Goto(m), Function::Goto(n)) => {
                lemma_same_tail(p + "goto"@, decimal(m), decimal(n));
                law_decimal_tells_numbers_apart(m, n);
            },
            (Function::Reduce(m), Function::Reduce(n)) => {
                lemma_same_tail(p + "reduce"@, decimal(m), decimal(n));
                law_decimal_tells_numbers_apart(m, n);
            },
            (Function::CallAction(m), Function::CallAction(n)) => {
                lemma_same_tail(p + "call_action"@, decimal(m), decimal(n));
                law_decimal_tells_numbers_apart(m, n);
            },
            (Function::Pop(m), Function::Pop(n)) => {
                lemma_same_tail(p + "pop_"@, self.variant(m as int), self.variant(n as int));
                self.law_variants_have_distinct_names(m as int, n as int);
            },
            _ => {},
        }
    }

    /// No two variants of the type of symbols share a name.
    pub proof fn law_variants_have_distinct_names(self, j: int, k: int)
        requires
            j >= 0,
            k >= 0,
            self.variant(j) == self.variant(k),
        ensures
            j == k,
    {
        lemma_same_tail("Variant"@, decimal(j as nat), decimal(k as nat));
        law_decimal_tells_numbers_apart(j as nat, k as nat);
    }

    /// The type of a symbol is among those that have a variant.
    pub proof fn lemma_symbol_type_listed(self, symbol: Symbol)
        requires
            self.grammar.has_symbol(symbol),
        ensures
            self.variant_types().contains(self.grammar.types.type_of(symbol)),
    {
        let i = self.position_of(symbol);
        assert(self.symbol(i) == symbol);
        self.lemma_type_listed(self.symbol_count(), i);
    }

    /// Two symbols are stored in the same variant if and only if their values
    /// have the same type.
    pub proof fn law_variant_per_type(self, a: Symbol, b: Symbol)
        requires
            self.grammar.has_symbol(a),
            self.grammar.has_symbol(b),
        ensures
            self.variant_for(a) == self.variant_for(b) <==> self.grammar.types.type_of(a)
                == self.grammar.types.type_of(b),
    {
        let types = self.variant_types();
        let s = self.grammar.types.type_of(a);
        let t = self.grammar.types.type_of(b);
        self.lemma_symbol_type_listed(a);
        self.lemma_symbol_type_listed(b);
        let j = types.index_of(s);
        let k = types.index_of(t);
        assert(types[j] == s && types[k] == t);
        if self.variant_for(a) == self.variant_for(b) {
            self.law_variants_have_distinct_names(j, k);
        }
    }

    /// The variant of a symbol is declared, with the type of the symbol.
    pub proof fn law_variant_is_declared(self, symbol: Symbol) -> (k: int)
        requires
            self.grammar.has_symbol(symbol),
        ensures
            0 <= k < self.variant_lines(self.symbol_count()).len(),
            self.variant_for(symbol) == self.variant(k),
            self.variant_lines(self.symbol_count())[k] == self.variant_line(
                k,
                self.grammar.types.type_of(symbol),
            ),
    {
        self.lemma_symbol_type_listed(symbol);
        self.variant_types().index_of(self.grammar.types.type_of(symbol))
    }

    /// Every production has an index of its own, at which it stands among the
    /// productions for the last time.
    pub proof fn law_reduce_indices(self, a: ProductionView, b: ProductionView)
        requires
            self.grammar.productions().contains(a),
            self.grammar.productions().contains(b),
        ensures
            0 <= self.reduce_index(a) < self.grammar.productions().len(),
            self.grammar.productions()[self.reduce_index(a)] == a,
            self.reduce_index(a) == self.reduce_index(b) <==> a == b,
            forall|i: int|
                self.reduce_index(a) < i < self.grammar.productions().len()
                    ==> #[trigger] self.grammar.productions()[i] != a,
    {
        self.lemma_reduce_index(a);
        self.lemma_reduce_index(b);
    }

    proof fn lemma_reduce_index(self, production: ProductionView)
        requires
            self.grammar.productions().contains(production),
        ensures
            self.is_last_index(production, self.reduce_index(production)),
    {
        let productions = self.grammar.productions();
        let k = productions.index_of(production);
        self.lemma_last_index_exists(production, k);
    }

    proof fn lemma_last_index_exists(self, production: ProductionView, k: int)
        requires
            0 <= k < self.grammar.productions().len(),
            self.grammar.productions()[k] == production,
        ensures
            exists|i: int| self.is_last_index(production, i),
        decreases self.grammar.productions().len() - k,
    {
        let productions = self.grammar.productions();
        if exists|j: int| k < j < productions.len() && #[trigger] productions[j] == production {
            let j = choose|j: int|
                k < j < productions.len() && #[trigger] productions[j] == production;
            self.lemma_last_index_exists(production, j);
        } else {
            assert(self.is_last_index(production, k));
        }
    }
}

proof fn lemma_same_tail(head: Line, a: Line, b: Line)
    requires
        head + a == head + b,
    ensures
        a == b,
{
    assert(a =~= (head + a).skip(head.len() as int));
    assert(b =~= (head + b).skip(head.len() as int));
}

} // verus!
