//! Whether a parser can be generated: every handle has to refer to an entry of
//! its table, and no state may rely on error recovery.
use crate::codegen::input::Input;
use crate::grammar::{
    production_views, Grammar, Production, ProductionView, Symbol, TypeRepr, Types,
};
use crate::lr1::{Lr1State, Reduction, Token};
use vstd::prelude::*;

verus! {

impl Types {
    fn has(&self, ty: TypeRepr) -> (has: bool)
        ensures
            has == self.knows(ty),
    {
        ty.0 < self.all.len()
    }

    /// Whether every type that is referred to is in the table.
    pub fn is_wf(&self) -> (valid: bool)
        ensures
            valid == self.wf(),
    {
        if !self.has(self.terminal_token_type) || !self.has(self.terminal_loc_type) || !self.has(
            self.parse_error_type,
        ) {
            return false;
        }
        let mut t: usize = 0;
        while t < self.terminal_types.len()
            invariant
                t <= self.terminal_types.len(),
                forall|k: int|
                    0 <= k < t ==> (#[trigger] self.terminal_types@[k] matches Some(ty)
                        ==> self.knows(ty)),
            decreases self.terminal_types.len() - t,
        {
            if let Some(ty) = self.terminal_types[t] {
                if !self.has(ty) {
                    assert(self.terminal_types@[t as int] == Some(ty));
                    return false;
                }
            }
            t += 1;
        }
        let mut n: usize = 0;
        while n < self.nonterminal_types.len()
            invariant
                n <= self.nonterminal_types.len(),
                forall|k: int|
                    0 <= k < n ==> self.knows(#[trigger] self.nonterminal_types@[k]),
            decreases self.nonterminal_types.len() - n,
        {
            if !self.has(self.nonterminal_types[n]) {
                return false;
            }
            n += 1;
        }
        true
    }
}

impl Grammar {
    fn has(&self, symbol: Symbol) -> (has: bool)
        ensures
            has == self.has_symbol(symbol),
    {
        match symbol {
            Symbol::Terminal(t) => t.0 < self.terminals.len(),
            Symbol::Nonterminal(n) => n.0 < self.nonterminals.len(),
        }
    }

    fn can_resolve(&self, production: &Production) -> (resolved: bool)
        ensures
            resolved == self.resolves(production@),
    {
        if !self.has(Symbol::Nonterminal(production.nonterminal)) || production.action.0
            >= self.fallible.len() {
            return false;
        }
        let mut i: usize = 0;
        while i < production.symbols.len()
            invariant
                i <= production.symbols.len(),
                forall|k: int|
                    0 <= k < i ==> self.has_symbol(#[trigger] production@.symbols[k]),
            decreases production.symbols.len() - i,
        {
            if !self.has(production.symbols[i]) {
                assert(!self.has_symbol(production@.symbols[i as int]));
                return false;
            }
            i += 1;
        }
        true
    }

    /// Whether every handle in the grammar refers to an entry of its table.
    pub fn is_wf(&self) -> (valid: bool)
        ensures
            valid == self.wf(),
    {
        if !self.types.is_wf() || self.types.terminal_types.len() != self.terminals.len()
            || self.types.nonterminal_types.len() != self.nonterminals.len() {
            return false;
        }
        let mut i: usize = 0;
        while i < self.parameters.len()
            invariant
                i <= self.parameters.len(),
                forall|k: int|
                    0 <= k < i ==> self.types.knows((#[trigger] self.parameters@[k]).ty),
            decreases self.parameters.len() - i,
        {
            if !self.types.has(self.parameters[i].ty) {
                return false;
            }
            i += 1;
        }
        let productions = self.all_productions();
        let mut j: usize = 0;
        while j < productions.len()
            invariant
                j <= productions.len(),
                production_views(productions@) == self.productions(),
                forall|k: int| 0 <= k < j ==> self.resolves(#[trigger] self.productions()[k]),
            decreases productions.len() - j,
        {
            assert(self.productions()[j as int] == productions@[j as int]@);
            if !self.can_resolve(productions[j]) {
                return false;
            }
            j += 1;
        }
        true
    }

    /// Whether a production is one of the grammar's.
    fn has_production(&self, production: &Production) -> (has: bool)
        ensures
            has == self.productions().contains(production@),
    {
        let productions = self.all_productions();
        let mut i: usize = 0;
        while i < productions.len()
            invariant
                i <= productions.len(),
                production_views(productions@) == self.productions(),
                forall|k: int| 0 <= k < i ==> #[trigger] self.productions()[k] != production@,
            decreases productions.len() - i,
        {
            assert(self.productions()[i as int] == productions@[i as int]@);
            if productions[i].is_same(production) {
                return true;
            }
            i += 1;
        }
        false
    }
}

impl<'a, 'grammar> Input<'a, 'grammar> {
    /// A parser can be generated if and only if every handle in the grammar and in
    /// the states has its entry, every reduction that a token triggers is of a
    /// production of the grammar, no token is an error, and every empty production
    /// that is reduced has a goto in that state and is not one of the start symbol.
    pub proof fn law_supported(self)
        ensures
            ({
                let grammar = self.grammar;
                let types = grammar.types;
                let known = types.all@.len();
                let terminals = grammar.terminals@.len();
                let nonterminals = grammar.nonterminals@.len();
                let resolves = |production: ProductionView|
                    {
                        &&& production.nonterminal.0 < nonterminals
                        &&& production.action.0 < grammar.fallible@.len()
                        &&& forall|i: int|
                            0 <= i < production.symbols.len() ==> match (
                            #[trigger] production.symbols[i]) {
                                Symbol::Terminal(t) => t.0 < terminals,
                                Symbol::Nonterminal(n) => n.0 < nonterminals,
                            }
                    };
                self.wf() <==> {
                    &&& types.terminal_token_type.0 < known
                    &&& types.terminal_loc_type.0 < known
                    &&& types.parse_error_type.0 < known
                    &&& types.terminal_types@.len() == terminals
                    &&& types.nonterminal_types@.len() == nonterminals
                    &&& forall|t: int|
                        0 <= t < terminals ==> ((#[trigger] types.terminal_types@[t]) is Some
                            ==> (types.terminal_types@[t]->0).0 < known)
                    &&& forall|n: int|
                        0 <= n < nonterminals ==> (#[trigger] types.nonterminal_types@[n]).0
                            < known
                    &&& forall|i: int|
                        0 <= i < grammar.parameters@.len() ==> (
                        #[trigger] grammar.parameters@[i]).ty.0 < known
                    &&& forall|i: int|
                        0 <= i < grammar.productions().len() ==> resolves(
                            #[trigger] grammar.productions()[i],
                        )
                    &&& self.start_symbol.0 < nonterminals
                    &&& forall|s: int, i: int|
                        #![trigger self.states@[s].shifts@[i]]
                        0 <= s < self.states@.len() && 0 <= i < self.states@[s].shifts@.len()
                            ==> (self.states@[s].shifts@[i].0).0 < terminals
                    &&& forall|s: int, i: int|
                        #![trigger self.states@[s].gotos@[i]]
                        0 <= s < self.states@.len() && 0 <= i < self.states@[s].gotos@.len()
                            ==> (self.states@[s].gotos@[i].0).0 < nonterminals
                    &&& forall|s: int, i: int|
                        #![trigger self.states@[s].reductions@[i]]
                        0 <= s < self.states@.len() && 0 <= i < self.states@[s].reductions@.len()
                            ==> {
                            let tokens = self.states@[s].reductions@[i].tokens@;
                            let production = self.states@[s].reductions@[i].production@;
                            &&& resolves(production)
                            &&& tokens.len() > 0 ==> grammar.productions().contains(production)
                            &&& forall|k: int|
                                0 <= k < tokens.len() ==> match (#[trigger] tokens[k]) {
                                    Token::Eof => true,
                                    Token::Error => false,
                                    Token::Terminal(t) => t.0 < terminals,
                                }
                            &&& tokens.len() > 0 && production.symbols.len() == 0 ==> {
                                &&& production.nonterminal != self.start_symbol
                                &&& exists|g: int|
                                    0 <= g < self.states@[s].gotos@.len() && (
                                    #[trigger] self.states@[s].gotos@[g]).0
                                        == production.nonterminal
                            }
                        }
                }
            }),
    {
        let grammar = self.grammar;
        let terminals = grammar.terminals@.len();
        let nonterminals = grammar.nonterminals@.len();
        assert forall|production: ProductionView| #[trigger]
            grammar.resolves(production) <==> {
                &&& production.nonterminal.0 < nonterminals
                &&& production.action.0 < grammar.fallible@.len()
                &&& forall|i: int|
                    0 <= i < production.symbols.len() ==> match (
                    #[trigger] production.symbols[i]) {
                        Symbol::Terminal(t) => t.0 < terminals,
                        Symbol::Nonterminal(n) => n.0 < nonterminals,
                    }
            } by {
            if grammar.resolves(production) {
                assert forall|i: int| 0 <= i < production.symbols.len() implies match (
                #[trigger] production.symbols[i]) {
                    Symbol::Terminal(t) => t.0 < terminals,
                    Symbol::Nonterminal(n) => n.0 < nonterminals,
                } by {
                    assert(grammar.has_symbol(production.symbols[i]));
                }
            }
        }
        if self.wf() {
            self.lemma_supported_states();
        }
    }

    proof fn lemma_supported_states(self)
        requires
            self.wf(),
        ensures
            forall|s: int|
                0 <= s < self.states@.len() ==> self.supports_state(#[trigger] self.states@[s]),
            forall|s: int, i: int|
                #![trigger self.states@[s].reductions@[i]]
                0 <= s < self.states@.len() && 0 <= i < self.states@[s].reductions@.len()
                    ==> self.supports_reduction(
                    self.states@[s],
                    self.states@[s].reductions@[i],
                ),
    {
        assert forall|s: int, i: int|
            #![trigger self.states@[s].reductions@[i]]
            0 <= s < self.states@.len() && 0 <= i
                < self.states@[s].reductions@.len() implies self.supports_reduction(
            self.states@[s],
            self.states@[s].reductions@[i],
        ) by {
            assert(self.supports_state(self.states@[s]));
        }
    }
}

impl<'a, 'grammar> Input<'a, 'grammar> {
    fn can_look_ahead(&self, token: Token) -> (can: bool)
        ensures
            can == self.supports_token(token),
    {
        match token {
            Token::Eof => true,
            Token::Error => false,
            Token::Terminal(t) => t.0 < self.grammar.terminals.len(),
        }
    }

    fn can_go_on(&self, state: &Lr1State<'grammar>, production: &Production) -> (can: bool)
        ensures
            can == state.has_goto(production@.nonterminal),
    {
        let mut i: usize = 0;
        while i < state.gotos.len()
            invariant
                i <= state.gotos.len(),
                forall|k: int|
                    0 <= k < i ==> (#[trigger] state.gotos@[k]).0 != production@.nonterminal,
            decreases state.gotos.len() - i,
        {
            if state.gotos[i].0 == production.nonterminal {
                assert(state.gotos@[i as int].0 == production@.nonterminal);
                return true;
            }
            i += 1;
        }
        false
    }

    fn can_reduce(&self, state: &Lr1State<'grammar>, reduction: &Reduction<'grammar>) -> (can: bool)
        ensures
            can == self.supports_reduction(*state, *reduction),
    {
        let production = reduction.production;
        if !self.grammar.can_resolve(production) || (reduction.tokens.len() > 0
            && !self.grammar.has_production(production)) {
            return false;
        }
        let mut i: usize = 0;
        while i < reduction.tokens.len()
            invariant
                i <= reduction.tokens.len(),
                forall|k: int|
                    0 <= k < i ==> self.supports_token(#[trigger] reduction.tokens@[k]),
            decreases reduction.tokens.len() - i,
        {
            if !self.can_look_ahead(reduction.tokens[i]) {
                return false;
            }
            i += 1;
        }
        reduction.tokens.len() == 0 || production.symbols.len() > 0 || (production.nonterminal
            != self.start_symbol && self.can_go_on(state, production))
    }

    fn can_enter(&self, state: &Lr1State<'grammar>) -> (can: bool)
        ensures
            can == self.supports_state(*state),
    {
        let mut i: usize = 0;
        while i < state.shifts.len()
            invariant
                i <= state.shifts.len(),
                forall|k: int|
                    0 <= k < i ==> self.grammar.has_terminal((#[trigger] state.shifts@[k]).0),
            decreases state.shifts.len() - i,
        {
            if state.shifts[i].0.0 >= self.grammar.terminals.len() {
                return false;
            }
            i += 1;
        }
        let mut j: usize = 0;
        while j < state.reductions.len()
            invariant
                j <= state.reductions.len(),
                forall|k: int|
                    0 <= k < j ==> self.supports_reduction(
                        *state,
                        #[trigger] state.reductions@[k],
                    ),
            decreases state.reductions.len() - j,
        {
            if !self.can_reduce(state, &state.reductions[j]) {
                return false;
            }
            j += 1;
        }
        let mut n: usize = 0;
        while n < state.gotos.len()
            invariant
                n <= state.gotos.len(),
                forall|k: int|
                    0 <= k < n ==> self.grammar.has_nonterminal((#[trigger] state.gotos@[k]).0),
            decreases state.gotos.len() - n,
        {
            if state.gotos[n].0.0 >= self.grammar.nonterminals.len() {
                return false;
            }
            n += 1;
        }
        true
    }

    fn has_error_token(&self, reduction: &Reduction<'grammar>) -> (has: bool)
        ensures
            has == reduction.tokens@.contains(Token::Error),
    {
        let mut i: usize = 0;
        while i < reduction.tokens.len()
            invariant
                i <= reduction.tokens.len(),
                forall|k: int| 0 <= k < i ==> reduction.tokens@[k] != Token::Error,
            decreases reduction.tokens.len() - i,
        {
            if reduction.tokens[i] == Token::Error {
                return true;
            }
            i += 1;
        }
        false
    }

    fn recovers(&self, state: &Lr1State<'grammar>) -> (recovers: bool)
        ensures
            recovers == state.reduces_on(Token::Error),
    {
        let mut i: usize = 0;
        while i < state.reductions.len()
            invariant
                i <= state.reductions.len(),
                forall|k: int|
                    0 <= k < i ==> !(#[trigger] state.reductions@[k]).tokens@.contains(
                        Token::Error,
                    ),
            decreases state.reductions.len() - i,
        {
            if self.has_error_token(&state.reductions[i]) {
                assert(state.reductions@[i as int].tokens@.contains(Token::Error));
                return true;
            }
            i += 1;
        }
        false
    }

    /// Whether a state relies on error recovery, so that no parser can be
    /// generated.
    pub fn needs_error_recovery(&self) -> (needed: bool)
        ensures
            needed == exists|i: int|
                0 <= i < self.states@.len() && (#[trigger] self.states@[i]).reduces_on(
                    Token::Error,
                ),
            needed ==> !self.wf(),
    {
        let mut i: usize = 0;
        while i < self.states.len()
            invariant
                i <= self.states.len(),
                forall|k: int|
                    0 <= k < i ==> !(#[trigger] self.states@[k]).reduces_on(Token::Error),
            decreases self.states.len() - i,
        {
            if self.recovers(&self.states[i]) {
                proof {
                    let state = self.states@[i as int];
                    assert(state.reduces_on(Token::Error));
                    let j = choose|j: int|
                        0 <= j < state.reductions@.len() && (
                        #[trigger] state.reductions@[j]).tokens@.contains(Token::Error);
                    let tokens = state.reductions@[j].tokens@;
                    let k = tokens.index_of(Token::Error);
                    assert(!self.supports_token(tokens[k]));
                    assert(!self.supports_reduction(state, state.reductions@[j]));
                    assert(!self.supports_state(state));
                }
                return true;
            }
            i += 1;
        }
        false
    }

    /// Whether a parser can be generated.
    pub fn is_wf(&self) -> (valid: bool)
        ensures
            valid == self.wf(),
    {
        if !self.grammar.is_wf() || self.start_symbol.0 >= self.grammar.nonterminals.len() {
            return false;
        }
        let mut i: usize = 0;
        while i < self.states.len()
            invariant
                i <= self.states.len(),
                forall|k: int| 0 <= k < i ==> self.supports_state(#[trigger] self.states@[k]),
            decreases self.states.len() - i,
        {
            if !self.can_enter(&self.states[i]) {
                assert(!self.supports_state(self.states@[i as int]));
                return false;
            }
            i += 1;
        }
        true
    }
}

} // verus!
