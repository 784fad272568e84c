//! The states of an LR(1) automaton.
use crate::grammar::{NonterminalString, Production, ProductionView, TerminalString};
use vstd::prelude::*;

verus! {

/// A state, as its position in the automaton's list of them.
#[derive(Clone, Copy, PartialEq, Eq, Structural, Debug)]
pub struct StateIndex(pub usize);

/// A token of lookahead.
#[derive(Clone, Copy, PartialEq, Eq, Structural, Debug)]
pub enum Token {
    Eof,
    Error,
    Terminal(TerminalString),
}

/// A reduction, with the tokens that trigger it.
pub struct Reduction<'grammar> {
    pub tokens: Vec<Token>,
    pub production: &'grammar Production,
}

/// A state of the automaton.
pub struct Lr1State<'grammar> {
    /// the items of the state, as they are shown in comments
    pub items: Vec<String>,
    /// by terminal, in the order in which they are written
    pub shifts: Vec<(TerminalString, StateIndex)>,
    pub reductions: Vec<Reduction<'grammar>>,
    /// by nonterminal, in the order in which they are written
    pub gotos: Vec<(NonterminalString, StateIndex)>,
}

impl<'grammar> Lr1State<'grammar> {
    /// Whether the state shifts terminal `t`.
    pub open spec fn shifts_on(self, t: TerminalString) -> bool {
        exists|i: int| 0 <= i < self.shifts@.len() && (#[trigger] self.shifts@[i]).0 == t
    }

    /// Whether entry `i` is the first shift of terminal `t`.
    pub open spec fn first_shift(self, t: TerminalString, i: int) -> bool {
        &&& 0 <= i < self.shifts@.len()
        &&& self.shifts@[i].0 == t
        &&& forall|j: int| 0 <= j < i ==> (#[trigger] self.shifts@[j]).0 != t
    }

    /// Where the shift of terminal `t` leads.
    pub open spec fn shift(self, t: TerminalString) -> StateIndex {
        let i = choose|i: int| self.first_shift(t, i);
        self.shifts@[i].1
    }

    /// Whether entry `i` is the first reduction on `token`.
    pub open spec fn first_reduction(self, token: Token, i: int) -> bool {
        &&& 0 <= i < self.reductions@.len()
        &&& self.reductions@[i].tokens@.contains(token)
        &&& forall|j: int|
            0 <= j < i ==> !(#[trigger] self.reductions@[j]).tokens@.contains(token)
    }

    /// What the state reduces on `token`.
    pub open spec fn reduction(self, token: Token) -> ProductionView {
        let i = choose|i: int| self.first_reduction(token, i);
        self.reductions@[i].production@
    }

    /// No token triggers the reduction of two productions.
    pub open spec fn is_conflict_free(self) -> bool {
        forall|i: int, j: int, token: Token|
            #![trigger self.reductions@[i].tokens@.contains(token), self.reductions@[j].tokens@.contains(token)]
            0 <= i < self.reductions@.len() && 0 <= j < self.reductions@.len()
                && self.reductions@[i].tokens@.contains(token)
                && self.reductions@[j].tokens@.contains(token) ==> self.reductions@[i].production@
                == self.reductions@[j].production@
    }

    /// Whether the state reduces on `token`.
    pub open spec fn reduces_on(self, token: Token) -> bool {
        exists|i: int|
            0 <= i < self.reductions@.len() && (#[trigger] self.reductions@[i]).tokens@.contains(
                token,
            )
    }

    /// Whether the state has an action for terminal `t`.
    pub open spec fn accepts(self, t: TerminalString) -> bool {
        self.shifts_on(t) || self.reduces_on(Token::Terminal(t))
    }

    /// Whether there is a goto for nonterminal `n`.
    pub open spec fn has_goto(self, n: NonterminalString) -> bool {
        exists|i: int| 0 <= i < self.gotos@.len() && (#[trigger] self.gotos@[i]).0 == n
    }

    /// Whether entry `i` is the first goto for nonterminal `n`.
    pub open spec fn first_goto(self, n: NonterminalString, i: int) -> bool {
        &&& 0 <= i < self.gotos@.len()
        &&& self.gotos@[i].0 == n
        &&& forall|j: int| 0 <= j < i ==> (#[trigger] self.gotos@[j]).0 != n
    }

    /// Where the goto for nonterminal `n` leads.
    pub open spec fn goto(self, n: NonterminalString) -> StateIndex {
        let i = choose|i: int| self.first_goto(n, i);
        self.gotos@[i].1
    }

    /// What an entry says holds, if no entry before it speaks of the same.
    pub proof fn law_first_entries_hold(self, i: int)
        ensures
            0 <= i < self.gotos@.len() && (forall|j: int|
                0 <= j < i ==> (#[trigger] self.gotos@[j]).0 != self.gotos@[i].0) ==> self.goto(
                self.gotos@[i].0,
            ) == self.gotos@[i].1,
            0 <= i < self.shifts@.len() && (forall|j: int|
                0 <= j < i ==> (#[trigger] self.shifts@[j]).0 != self.shifts@[i].0) ==> self.shift(
                self.shifts@[i].0,
            ) == self.shifts@[i].1,
    {
        if 0 <= i < self.gotos@.len() && (forall|j: int|
            0 <= j < i ==> (#[trigger] self.gotos@[j]).0 != self.gotos@[i].0) {
            let n = self.gotos@[i].0;
            assert(self.first_goto(n, i));
            let k = choose|k: int| self.first_goto(n, k);
            assert(self.gotos@[k].0 == n);
        }
        if 0 <= i < self.shifts@.len() && (forall|j: int|
            0 <= j < i ==> (#[trigger] self.shifts@[j]).0 != self.shifts@[i].0) {
            let t = self.shifts@[i].0;
            assert(self.first_shift(t, i));
            let k = choose|k: int| self.first_shift(t, k);
            assert(self.shifts@[k].0 == t);
        }
    }

    /// Where the goto for nonterminal `n` leads.
    pub fn find_goto(&self, n: NonterminalString) -> (target: StateIndex)
        requires
            self.has_goto(n),
        ensures
            target == self.goto(n),
    {
        let mut i: usize = 0;
        while self.gotos[i].0 != n
            invariant
                self.has_goto(n),
                i < self.gotos.len(),
                forall|j: int| 0 <= j < i ==> (#[trigger] self.gotos@[j]).0 != n,
            decreases self.gotos.len() - i,
        {
            i += 1;
        }
        proof {
            assert(self.first_goto(n, i as int));
            let k = choose|k: int| self.first_goto(n, k);
            assert(self.gotos@[k].0 == n && self.gotos@[i as int].0 == n);
        }
        self.gotos[i].1
    }
}

} // verus!
