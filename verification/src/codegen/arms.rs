//! How control passes between the functions of the generated module: every path
//! through a parser function ends by calling the next one in tail position, or
//! by returning with a result.
use crate::codegen::groups::Group;
use crate::codegen::input::Input;
use crate::codegen::structure::{
    lemma_occurs_in_first, lemma_occurs_in_itself, lemma_occurs_in_second, lemma_occurs_transitive,
    occurs,
};
use crate::grammar::{NonterminalString, ProductionView, TerminalString};
use crate::lr1::{Lr1State, StateIndex};
use crate::text::{decimal, law_decimal_tells_numbers_apart, Line};
use vstd::prelude::*;

verus! {

/// The block's last line is `line`, but for the brace that closes it.
pub open spec fn ends_in(block: Seq<Line>, line: Line) -> bool {
    &&& block.len() >= 2
    &&& block[block.len() - 2] == line
    &&& block.last() == "}"@
}

impl<'a, 'grammar> Input<'a, 'grammar> {
    proof fn lemma_shift_arm_occurs(self, state: int, i: int, n: nat)
        requires
            0 <= i < n,
        ensures
            ({
                let (t, target) = self.states@[state].shifts@[i];
                occurs(self.shift_arm(state, t, target), self.shift_arms(state, n))
            }),
        decreases n,
    {
        let (t, target) = self.states@[state].shifts@[i];
        let block = self.shift_arm(state, t, target);
        let before = self.shift_arms(state, (n - 1) as nat);
        let (last, last_target) = self.states@[state].shifts@[n - 1];
        if i == n - 1 {
            lemma_occurs_in_itself(block);
            lemma_occurs_in_second(block, before, block);
        } else {
            self.lemma_shift_arm_occurs(state, i, (n - 1) as nat);
            lemma_occurs_in_first(block, before, self.shift_arm(state, last, last_target));
        }
    }

    proof fn lemma_reduce_arm_occurs(self, state: int, i: int, n: nat)
        requires
            0 <= i < n,
        ensures
            occurs(self.reduce_arm(state, self.groups(state)[i]), self.reduce_arms(state, n)),
        decreases n,
    {
        let block = self.reduce_arm(state, self.groups(state)[i]);
        let before = self.reduce_arms(state, (n - 1) as nat);
        if i == n - 1 {
            lemma_occurs_in_itself(block);
            lemma_occurs_in_second(block, before, block);
        } else {
            self.lemma_reduce_arm_occurs(state, i, (n - 1) as nat);
            lemma_occurs_in_first(
                block,
                before,
                self.reduce_arm(state, self.groups(state)[n - 1]),
            );
        }
    }

    proof fn lemma_goto_arm_occurs(self, state: int, i: int, n: nat)
        requires
            0 <= i < n,
        ensures
            ({
                let (nt, target) = self.states@[state].gotos@[i];
                occurs(self.goto_arm(nt, target), self.goto_arms(state, n))
            }),
        decreases n,
    {
        let (nt, target) = self.states@[state].gotos@[i];
        let block = self.goto_arm(nt, target);
        let before = self.goto_arms(state, (n - 1) as nat);
        let (last, last_target) = self.states@[state].gotos@[n - 1];
        if i == n - 1 {
            lemma_occurs_in_itself(block);
            lemma_occurs_in_second(block, before, block);
        } else {
            self.lemma_goto_arm_occurs(state, i, (n - 1) as nat);
            lemma_occurs_in_first(block, before, self.goto_arm(last, last_target));
        }
    }

    /// The parts of a state's function stand in the module.
    proof fn lemma_state_fn_parts(self, state: int)
        requires
            0 <= state < self.states@.len(),
        ensures
            occurs(self.shift_arms(state, self.states@[state].shifts@.len()), self.module()),
            occurs(self.reduce_arms(state, self.groups(state).len()), self.module()),
            occurs(self.error(self.states@[state]), self.module()),
    {
        let open = self.state_open(state);
        let shifts = self.shift_arms(state, self.states@[state].shifts@.len());
        let reduces = self.reduce_arms(state, self.groups(state).len());
        let other = seq!["_ => {"@];
        let error = self.error(self.states@[state]);
        let close = seq!["}"@, "}"@, "}"@];
        self.law_states_have_functions(state);
        lemma_occurs_in_itself(shifts);
        lemma_occurs_in_second(shifts, open, shifts);
        lemma_occurs_in_first(shifts, open + shifts, reduces);
        lemma_occurs_in_first(shifts, open + shifts + reduces, other);
        lemma_occurs_in_first(shifts, open + shifts + reduces + other, error);
        lemma_occurs_in_first(shifts, open + shifts + reduces + other + error, close);
        lemma_occurs_transitive(shifts, self.state_fn(state), self.module());
        lemma_occurs_in_itself(reduces);
        lemma_occurs_in_second(reduces, open + shifts, reduces);
        lemma_occurs_in_first(reduces, open + shifts + reduces, other);
        lemma_occurs_in_first(reduces, open + shifts + reduces + other, error);
        lemma_occurs_in_first(reduces, open + shifts + reduces + other + error, close);
        lemma_occurs_transitive(reduces, self.state_fn(state), self.module());
        lemma_occurs_in_itself(error);
        lemma_occurs_in_second(error, open + shifts + reduces + other, error);
        lemma_occurs_in_first(error, open + shifts + reduces + other + error, close);
        lemma_occurs_transitive(error, self.state_fn(state), self.module());
    }

    proof fn lemma_shift_arm_ends(self, state: int, t: TerminalString, target: StateIndex)
        ensures
            ends_in(
                self.shift_arm(state, t, target),
                self.transition(self.state_name(target.0 as nat)),
            ),
    {
    }

    proof fn lemma_accept_ends(self, production: ProductionView)
        ensures
            ({
                let p = self.prefix();
                let accept = self.accept(production);
                &&& accept.len() >= 5
                &&& accept.last() == "return;"@
                &&& accept[accept.len() - 5] == p + "parser."@ + p + "result = Some(match "@ + p
                    + "lookahead {"@
            }),
    {
    }

    proof fn lemma_empty_reduce_ends(self, state: int, production: ProductionView)
        ensures
            ({
                let target = self.states@[state].goto(production.nonterminal);
                let reduce = self.empty_reduce(state, production);
                &&& reduce.len() >= 1
                &&& reduce.last() == self.transition(self.state_name(target.0 as nat))
            }),
    {
    }

    proof fn lemma_reduce_arm_ends(self, state: int, group: Group)
        ensures
            ({
                let reduction = self.reduction(state, group.production);
                let arm = self.reduce_arm(state, group);
                reduction.len() >= 1 ==> {
                    &&& ends_in(arm, reduction.last())
                    &&& forall|i: int|
                        0 <= i < reduction.len() ==> arm.contains(#[trigger] reduction[i])
                }
            }),
    {
        let patterns = self.arm_patterns(group.tokens);
        let reduction = self.reduction(state, group.production);
        let arm = self.reduce_arm(state, group);
        assert(arm == patterns + reduction + seq!["}"@]);
        assert forall|i: int| 0 <= i < reduction.len() implies arm.contains(
            #[trigger] reduction[i],
        ) by {
            assert(arm[patterns.len() + i] == reduction[i]);
        }
    }

    /// Every shift of a state has its arm, which ends by calling the function of
    /// the state that it leads to, in tail position.
    pub proof fn law_shifts_are_tail_calls(self, state: int, i: int)
        requires
            0 <= state < self.states@.len(),
            0 <= i < self.states@[state].shifts@.len(),
        ensures
            ({
                let (t, target) = self.states@[state].shifts@[i];
                let arm = self.shift_arm(state, t, target);
                &&& occurs(arm, self.module())
                &&& ends_in(arm, self.transition(self.state_name(target.0 as nat)))
            }),
    {
        let (t, target) = self.states@[state].shifts@[i];
        let n = self.states@[state].shifts@.len();
        self.lemma_state_fn_parts(state);
        self.lemma_shift_arm_occurs(state, i, n);
        lemma_occurs_transitive(
            self.shift_arm(state, t, target),
            self.shift_arms(state, n),
            self.module(),
        );
        self.lemma_shift_arm_ends(state, t, target);
    }

    /// Every goto of a state has its arm, which does nothing but call the
    /// function of the state that it leads to, in tail position.
    pub proof fn law_gotos_are_tail_calls(self, state: int, i: int)
        requires
            0 <= state < self.states@.len(),
            0 <= i < self.states@[state].gotos@.len(),
        ensures
            ({
                let (nt, target) = self.states@[state].gotos@[i];
                let arm = self.goto_arm(nt, target);
                &&& occurs(arm, self.module())
                &&& arm.len() == 3
                &&& ends_in(arm, self.transition(self.state_name(target.0 as nat)))
            }),
    {
        let p = self.prefix();
        let (nt, target) = self.states@[state].gotos@[i];
        let n = self.states@[state].gotos@.len();
        let block = self.goto_arm(nt, target);
        let open = seq!["match "@ + p + "parser."@ + p + "reduced_nt {"@];
        let close = seq!["_ => unreachable!(),"@, "}"@];
        self.law_states_have_functions(state);
        self.lemma_goto_arm_occurs(state, i, n);
        lemma_occurs_in_second(block, open, self.goto_arms(state, n));
        lemma_occurs_in_first(block, open + self.goto_arms(state, n), close);
        lemma_occurs_in_second(
            block,
            self.goto_open(state),
            open + self.goto_arms(state, n) + close,
        );
        lemma_occurs_in_first(
            block,
            self.goto_open(state) + (open + self.goto_arms(state, n) + close),
            seq!["}"@],
        );
        lemma_occurs_transitive(block, self.goto_fn(state), self.module());
    }

    /// The last line of what a state does to reduce a production: a call in tail
    /// position, of the function that reduces the production, or, if nothing is
    /// popped, of the function of the state that the reduction leads to; only
    /// the start production returns.
    pub open spec fn reduction_end(self, state: int, production: ProductionView) -> Line {
        if production.nonterminal == self.start_symbol {
            "return;"@
        } else if production.symbols.len() == 0 {
            let target = self.states@[state].goto(production.nonterminal);
            self.transition(self.state_name(target.0 as nat))
        } else {
            self.transition(self.reduce_name(production))
        }
    }

    proof fn lemma_reduction_ends(self, state: int, production: ProductionView)
        ensures
            self.reduction(state, production).len() >= 1,
            self.reduction(state, production).last() == self.reduction_end(state, production),
    {
        if production.nonterminal == self.start_symbol {
            self.lemma_accept_ends(production);
        } else if production.symbols.len() == 0 {
            self.lemma_empty_reduce_ends(state, production);
        }
    }

    /// Every group of reductions of a state has its arm, which ends in a call in
    /// tail position; only the arm for the start production returns.
    pub proof fn law_reductions_are_tail_calls(self, state: int, i: int)
        requires
            0 <= state < self.states@.len(),
            0 <= i < self.groups(state).len(),
        ensures
            ({
                let group = self.groups(state)[i];
                let arm = self.reduce_arm(state, group);
                &&& occurs(arm, self.module())
                &&& ends_in(arm, self.reduction_end(state, group.production))
            }),
    {
        let group = self.groups(state)[i];
        let n = self.groups(state).len();
        let arm = self.reduce_arm(state, group);
        self.lemma_state_fn_parts(state);
        self.lemma_reduce_arm_occurs(state, i, n);
        lemma_occurs_transitive(arm, self.reduce_arms(state, n), self.module());
        self.lemma_reduction_ends(state, group.production);
        self.lemma_reduce_arm_ends(state, group);
    }

    /// The arm for the start production fills in the result before it returns.
    pub proof fn law_accepts_have_results(self, state: int, group: Group)
        requires
            group.production.nonterminal == self.start_symbol,
        ensures
            ({
                let p = self.prefix();
                let line = p + "parser."@ + p + "result = Some(match "@ + p + "lookahead {"@;
                self.reduce_arm(state, group).contains(line)
            }),
    {
        let accept = self.accept(group.production);
        self.lemma_accept_ends(group.production);
        self.lemma_reduce_arm_ends(state, group);
        assert(self.reduce_arm(state, group).contains(accept[accept.len() - 5]));
    }

    /// The function that reduces a production ends by calling the continuation
    /// that it popped, in tail position.
    pub proof fn law_reduce_functions_call_continuations(self, production: ProductionView)
        ensures
            ends_in(
                self.reduce_fn(production),
                self.transition("("@ + self.prefix() + "goto.0)"@),
            ),
    {
    }

    proof fn lemma_error_ends(self, state: Lr1State<'grammar>)
        ensures
            ({
                let p = self.prefix();
                let error = self.error(state);
                &&& error.len() >= 1
                &&& error.last() == "return;"@
                &&& error.contains(p + "parser."@ + p + "result = Some(Err(match "@ + p
                    + "lookahead {"@)
            }),
    {
        let p = self.prefix();
        let error = self.error(state);
        assert(error[error.len() - 19] == p + "parser."@ + p + "result = Some(Err(match "@ + p
            + "lookahead {"@);
    }

    /// A state that has no action for the lookahead returns, with an error as
    /// the result.
    pub proof fn law_errors_return(self, state: int)
        requires
            0 <= state < self.states@.len(),
        ensures
            ({
                let p = self.prefix();
                let error = self.error(self.states@[state]);
                &&& occurs(error, self.module())
                &&& error.last() == "return;"@
                &&& error.contains(p + "parser."@ + p + "result = Some(Err(match "@ + p
                    + "lookahead {"@)
            }),
    {
        self.lemma_state_fn_parts(state);
        self.lemma_error_ends(self.states@[state]);
    }

    /// The arms of a goto function tell the nonterminals apart.
    pub proof fn law_goto_arms_tell_nonterminals_apart(
        self,
        m: NonterminalString,
        n: NonterminalString,
        to_m: StateIndex,
        to_n: StateIndex,
    )
        ensures
            self.goto_arm(m, to_m)[0] == self.goto_arm(n, to_n)[0] <==> m == n,
    {
        let first = decimal(m.0 as nat);
        let second = decimal(n.0 as nat);
        if first + " => {"@ == second + " => {"@ {
            assert((first + " => {"@).len() == (second + " => {"@).len());
            assert(first =~= (first + " => {"@).take(first.len() as int));
            assert(second =~= (second + " => {"@).take(first.len() as int));
            law_decimal_tells_numbers_apart(m.0 as nat, n.0 as nat);
        }
    }

    /// A reduction announces its nonterminal by the number that the goto
    /// functions know it by.
    pub proof fn law_reductions_announce_nonterminals(
        self,
        production: ProductionView,
        target: StateIndex,
    )
        ensures
            ({
                let p = self.prefix();
                let index = decimal(production.nonterminal.0 as nat);
                let reduce = self.reduce_fn(production);
                &&& reduce[reduce.len() - 3] == p + "parser."@ + p + "reduced_nt = "@ + index
                    + ";"@
                &&& self.goto_arm(production.nonterminal, target)[0] == index + " => {"@
            }),
    {
    }

    /// A state pushes a token with its own goto function as continuation.
    pub proof fn law_shifts_push_continuations(
        self,
        state: int,
        t: TerminalString,
        target: StateIndex,
    )
        ensures
            ({
                let p = self.prefix();
                let goto = self.goto_name(state as nat);
                let push = p + "parser."@ + p + "stack.push(("@ + p + "sym, "@ + p + "Goto("@
                    + goto + ")));"@;
                self.shift_arm(state, t, target)[2] == push
            }),
    {
    }

    /// The line by which a state's error lists terminal `t`.
    pub open spec fn expected_line(self, t: TerminalString) -> Line {
        let name = self.grammar.terminals@[t.0 as int].name@;
        "r###\""@ + name + "\"###.to_string(),"@
    }

    /// A state's error lists exactly the terminals that the state has an action
    /// for.
    pub proof fn law_errors_list_expected(self, state: Lr1State<'grammar>, n: nat, line: Line)
        requires
            n <= self.grammar.terminals@.len(),
        ensures
            self.expected(state, n).contains(line) <==> exists|t: TerminalString|
                t.0 < n && state.accepts(t) && line == #[trigger] self.expected_line(t),
        decreases n,
    {
        if n > 0 {
            let before = self.expected(state, (n - 1) as nat);
            let last = TerminalString((n - 1) as usize);
            assert(self.grammar.terminals.len() == self.grammar.terminals@.len());
            self.law_errors_list_expected(state, (n - 1) as nat, line);
            let all = self.expected(state, n);
            if all.contains(line) {
                let k = choose|k: int| 0 <= k < all.len() && all[k] == line;
                if k < before.len() {
                    assert(before[k] == line);
                } else {
                    assert(line == self.expected_line(last));
                }
            }
            if before.contains(line) {
                let k = choose|k: int| 0 <= k < before.len() && before[k] == line;
                assert(all[k] == line);
            }
            if state.accepts(last) && line == self.expected_line(last) {
                assert(all[all.len() - 1] == line);
            }
        }
    }
}

} // verus!
