//! A model of what the functions of a generated parser do, one step for each, and
//! that this model parses as the automaton does.
//!
//! The model stands beside the generated text: that the code for each of its steps
//! is in the generated module is stated here too, but the meaning of Rust is not
//! part of it.
use crate::automaton::{advance, Action, Automaton, Driver, Lexeme, Outcome, Tokens, Tree};
use crate::codegen::groups::{
    grouped, law_groups, lemma_group_exists, lemma_group_tokens, triggers, Group,
};
use crate::codegen::input::Input;
use crate::codegen::structure::occurs;
use crate::grammar::{NonterminalString, ProductionView, Symbol, TerminalString};
use crate::lr1::{Lr1State, Reduction, StateIndex, Token};
use vstd::prelude::*;

verus! {

/// The function that runs: control passes from one to the next, and no call
/// waits for another.
pub enum Control {
    State(nat),
    Reduce(ProductionView),
    Goto(nat),
    Done(Outcome),
}

/// An entry of the parse stack: a value, and the state whose goto function is
/// the continuation beside it.
pub struct Stacked {
    pub tree: Tree,
    pub goto: nat,
}

/// The parser while it runs, as it is modelled.
pub struct Parser {
    pub control: Control,
    pub stack: Seq<Stacked>,
    pub tokens: Tokens,
    pub reduced_nt: NonterminalString,
}

pub open spec fn trees(stack: Seq<Stacked>) -> Seq<Tree> {
    Seq::new(stack.len(), |i: int| stack[i].tree)
}

pub open spec fn gotos(stack: Seq<Stacked>) -> Seq<nat> {
    Seq::new(stack.len(), |i: int| stack[i].goto)
}

/// Whether group `i` is the first one that has `token`.
pub open spec fn first_group(groups: Seq<Group>, token: Token, i: int) -> bool {
    &&& 0 <= i < groups.len()
    &&& groups[i].tokens.contains(token)
    &&& forall|j: int| 0 <= j < i ==> !(#[trigger] groups[j]).tokens.contains(token)
}

impl Parser {
    pub open spec fn ends(self, outcome: Outcome) -> Parser {
        Parser { control: Control::Done(outcome), ..self }
    }
}

impl<'grammar> Automaton<'grammar> {
    /// The arm that matches `token` in a state's function: the shifts stand
    /// first, then the groups of reductions, then the error.
    pub open spec fn arm(self, state: nat, token: Token) -> Action {
        let state = self.states[state as int];
        let groups = grouped(state.reductions@, state.reductions@.len());
        match token {
            Token::Terminal(t) if state.shifts_on(t) => Action::Shift(state.shift(t)),
            _ => if exists|i: int| first_group(groups, token, i) {
                Action::Reduce(groups[choose|i: int| first_group(groups, token, i)].production)
            } else {
                Action::Error
            },
        }
    }

    /// The arm of a shift: pushes the token, with the state's own goto function
    /// as continuation.
    pub open spec fn shift_runs(self, parser: Parser, state: nat, target: StateIndex) -> Parser {
        match (parser.tokens.lookahead, advance(parser.tokens.rest)) {
            (Some(lexeme), Ok(tokens)) => Parser {
                control: Control::State(target.0 as nat),
                stack: parser.stack.push(Stacked { tree: Tree::Leaf(lexeme), goto: state }),
                tokens,
                ..parser
            },
            (Some(_), Err(error)) => parser.ends(Outcome::TokenError(error)),
            (None, _) => parser,
        }
    }

    /// The arm of a group of reductions.
    pub open spec fn reduction_runs(
        self,
        parser: Parser,
        state: nat,
        production: ProductionView,
    ) -> Parser {
        let tree = self.tree(production, trees(parser.stack), parser.tokens);
        if production.nonterminal == self.start_symbol {
            if !self.fits(production, trees(parser.stack)) {
                parser.ends(Outcome::Stuck)
            } else if (self.fails)(tree) {
                parser.ends(Outcome::ActionError(tree))
            } else {
                parser.ends(self.accepted(tree, parser.tokens))
            }
        } else if production.symbols.len() == 0 {
            if (self.fails)(tree) {
                parser.ends(Outcome::ActionError(tree))
            } else if !self.states[state as int].has_goto(production.nonterminal) {
                parser.ends(Outcome::Stuck)
            } else {
                let target = self.states[state as int].goto(production.nonterminal);
                Parser {
                    control: Control::State(target.0 as nat),
                    stack: parser.stack.push(Stacked { tree, goto: state }),
                    ..parser
                }
            }
        } else {
            Parser { control: Control::Reduce(production), ..parser }
        }
    }

    /// The function of a state.
    pub open spec fn state_runs(self, parser: Parser, state: nat) -> Parser {
        if state >= self.states.len() {
            parser.ends(Outcome::Stuck)
        } else {
            match self.arm(state, parser.tokens.token()) {
                Action::Shift(target) => self.shift_runs(parser, state, target),
                Action::Reduce(production) => self.reduction_runs(parser, state, production),
                Action::Error => parser.ends(
                    self.unrecognized(state, trees(parser.stack), parser.tokens),
                ),
            }
        }
    }

    /// The function that reduces a production: pops the handle, pushes the
    /// result, and passes control to the continuation found on the deepest entry
    /// of the handle.
    pub open spec fn reduce_runs(self, parser: Parser, production: ProductionView) -> Parser {
        let n = production.symbols.len();
        if !self.fits(production, trees(parser.stack)) {
            parser.ends(Outcome::Stuck)
        } else {
            let tree = self.tree(production, trees(parser.stack), parser.tokens);
            let left = parser.stack.len() - n;
            let goto = parser.stack[left].goto;
            if (self.fails)(tree) {
                parser.ends(Outcome::ActionError(tree))
            } else {
                Parser {
                    control: Control::Goto(goto),
                    stack: parser.stack.take(left).push(Stacked { tree, goto }),
                    reduced_nt: production.nonterminal,
                    ..parser
                }
            }
        }
    }

    /// The goto function of a state.
    pub open spec fn goto_runs(self, parser: Parser, state: nat) -> Parser {
        if state >= self.states.len() || !self.states[state as int].has_goto(parser.reduced_nt) {
            parser.ends(Outcome::Stuck)
        } else {
            let target = self.states[state as int].goto(parser.reduced_nt);
            Parser { control: Control::State(target.0 as nat), ..parser }
        }
    }

    /// The parser at the end of the function that runs.
    pub open spec fn parser_step(self, parser: Parser) -> Parser {
        match parser.control {
            Control::State(state) => self.state_runs(parser, state),
            Control::Reduce(production) => self.reduce_runs(parser, production),
            Control::Goto(state) => self.goto_runs(parser, state),
            Control::Done(_) => parser,
        }
    }

    /// The parser when it enters the function of the first state.
    pub open spec fn parser_start(self, input: Seq<Result<Lexeme, nat>>) -> Parser {
        match advance(input) {
            Ok(tokens) => Parser {
                control: Control::State(0),
                stack: seq![],
                tokens,
                reduced_nt: NonterminalString(0),
            },
            Err(error) => Parser {
                control: Control::Done(Outcome::TokenError(error)),
                stack: seq![],
                tokens: Tokens { lookahead: None, rest: input },
                reduced_nt: NonterminalString(0),
            },
        }
    }

    /// The parser after `n` functions have run.
    pub open spec fn parser_run(self, input: Seq<Result<Lexeme, nat>>, n: nat) -> Parser
        decreases n,
    {
        if n == 0 {
            self.parser_start(input)
        } else {
            self.parser_step(self.parser_run(input, (n - 1) as nat))
        }
    }

    /// Whether the model of the generated parser ends on an input, and how.
    pub open spec fn parser_parses(
        self,
        input: Seq<Result<Lexeme, nat>>,
        outcome: Outcome,
    ) -> bool {
        exists|n: nat| (#[trigger] self.parser_run(input, n)).control == Control::Done(outcome)
    }

    /// The parser is where the automaton is: the automaton's stack of states is
    /// that of the continuations, with the state whose function runs on top.
    pub open spec fn corresponds(self, parser: Parser, driver: Driver) -> bool {
        match driver.outcome {
            Some(outcome) => parser.control == Control::Done(outcome),
            None => {
                &&& parser.control matches Control::State(state)
                &&& driver.states == gotos(parser.stack).push(state)
                &&& driver.trees == trees(parser.stack)
                &&& driver.tokens == parser.tokens
            },
        }
    }

    /// The arms of a state's function, as they are modelled, do what the state does,
    /// if it has no conflicting reductions.
    pub proof fn law_arms_keep_actions(self, state: nat, token: Token)
        requires
            state < self.states.len(),
            self.states[state as int].is_conflict_free(),
        ensures
            self.arm(state, token) == self.action(state, token),
    {
        let table = self.states[state as int];
        let reductions = table.reductions@;
        let groups = grouped(reductions, reductions.len());
        if exists|i: int| first_group(groups, token, i) {
            let i = choose|i: int| first_group(groups, token, i);
            let production = groups[i].production;
            law_groups(reductions, reductions.len(), production);
            lemma_group_tokens(groups, i);
            let k = lemma_trigger_source(reductions, production, reductions.len(), token);
            lemma_first_reduction(table, token, k);
            let first = choose|i: int| table.first_reduction(token, i);
            assert(table.first_reduction(token, first));
            assert(reductions[first].production@ == reductions[k].production@);
        } else if table.reduces_on(token) {
            let k = choose|k: int|
                0 <= k < reductions.len() && (#[trigger] reductions[k]).tokens@.contains(token);
            let production = reductions[k].production@;
            lemma_trigger_target(reductions, reductions.len(), token, k);
            law_groups(reductions, reductions.len(), production);
            let i = lemma_group_exists(groups, production);
            lemma_first_group(groups, token, i);
        }
    }

    /// The number of functions that run for one step of the automaton: a
    /// reduction that pops passes through three.
    pub open spec fn stride(self, driver: Driver) -> nat {
        match self.action(driver.states.last(), driver.tokens.token()) {
            Action::Reduce(production) if production.nonterminal != self.start_symbol
                && production.symbols.len() > 0 => 3,
            _ => 1,
        }
    }

    proof fn lemma_shift_corresponds(self, parser: Parser, driver: Driver, target: StateIndex)
        requires
            self.corresponds(parser, driver),
            driver.outcome is None,
            parser.tokens.lookahead is Some,
        ensures
            self.corresponds(
                self.shift_runs(parser, driver.states.last(), target),
                self.shifted(driver, target),
            ),
    {
        let state = driver.states.last();
        let stack = self.shift_runs(parser, state, target).stack;
        if advance(parser.tokens.rest) is Ok {
            let lexeme = parser.tokens.lookahead->0;
            assert(gotos(stack) =~= gotos(parser.stack).push(state));
            assert(trees(stack) =~= trees(parser.stack).push(Tree::Leaf(lexeme)));
        }
    }

    /// The reductions that one function completes.
    proof fn lemma_reduction_corresponds(
        self,
        parser: Parser,
        driver: Driver,
        production: ProductionView,
    )
        requires
            self.corresponds(parser, driver),
            driver.outcome is None,
            driver.states.last() < self.states.len(),
            production.nonterminal == self.start_symbol || production.symbols.len() == 0,
        ensures
            self.corresponds(
                self.reduction_runs(parser, driver.states.last(), production),
                self.reduced(driver, production),
            ),
    {
        let state = driver.states.last();
        if production.nonterminal != self.start_symbol {
            let tree = self.tree(production, trees(parser.stack), parser.tokens);
            let stack = parser.stack.push(Stacked { tree, goto: state });
            assert(self.fits(production, driver.trees));
            assert(driver.states.take(driver.states.len() as int) =~= driver.states);
            assert(driver.trees.take(driver.trees.len() as int) =~= driver.trees);
            assert(gotos(stack) =~= driver.states);
            assert(trees(stack) =~= driver.trees.push(tree));
        }
    }

    /// The reductions that pop: the state whose function found them, the
    /// function that reduces, and the goto function of the state below.
    proof fn lemma_pop_corresponds(
        self,
        parser: Parser,
        driver: Driver,
        production: ProductionView,
    )
        requires
            self.corresponds(parser, driver),
            driver.outcome is None,
            production.nonterminal != self.start_symbol,
            production.symbols.len() > 0,
        ensures
            self.corresponds(
                self.parser_step(
                    self.reduce_runs(
                        Parser { control: Control::Reduce(production), ..parser },
                        production,
                    ),
                ),
                self.reduced(driver, production),
            ),
    {
        let n = production.symbols.len();
        let entered = Parser { control: Control::Reduce(production), ..parser };
        let popped = self.reduce_runs(entered, production);
        if self.fits(production, driver.trees) {
            let tree = self.tree(production, driver.trees, driver.tokens);
            let left = parser.stack.len() - n;
            let goto = parser.stack[left].goto;
            let states = driver.states.take(driver.states.len() - n);
            assert(states =~= gotos(parser.stack.take(left)).push(goto));
            assert(states.last() == goto);
            if !(self.fails)(tree) {
                assert(gotos(popped.stack) =~= states);
                assert(trees(popped.stack) =~= driver.trees.take(driver.trees.len() - n).push(
                    tree,
                ));
            }
        }
    }

    proof fn lemma_step_corresponds(self, parser: Parser, driver: Driver)
        requires
            self.is_conflict_free(),
            self.corresponds(parser, driver),
        ensures
            ({
                let once = self.parser_step(parser);
                let thrice = self.parser_step(self.parser_step(once));
                self.corresponds(
                    if self.stride(driver) == 1 {
                        once
                    } else {
                        thrice
                    },
                    self.step(driver),
                )
            }),
    {
        if driver.outcome is None {
            let state = driver.states.last();
            if state < self.states.len() {
                let token = driver.tokens.token();
                self.law_arms_keep_actions(state, token);
                match self.action(state, token) {
                    Action::Shift(target) => self.lemma_shift_corresponds(parser, driver, target),
                    Action::Reduce(production) => {
                        if self.stride(driver) == 1 {
                            self.lemma_reduction_corresponds(parser, driver, production);
                        } else {
                            self.lemma_pop_corresponds(parser, driver, production);
                        }
                    },
                    Action::Error => {},
                }
            }
        }
    }

    /// Wherever the automaton gets in `n` steps, the model of the generated parser
    /// gets too, and in no fewer.
    proof fn lemma_run_corresponds(self, input: Seq<Result<Lexeme, nat>>, n: nat) -> (m: nat)
        requires
            self.is_conflict_free(),
        ensures
            m >= n,
            self.corresponds(self.parser_run(input, m), self.run(input, n)),
        decreases n,
    {
        if n == 0 {
            assert(gotos(seq![]) =~= seq![]);
            assert(trees(seq![]) =~= seq![]);
            assert(gotos(seq![]).push(0) =~= seq![0nat]);
            0
        } else {
            let m = self.lemma_run_corresponds(input, (n - 1) as nat);
            let driver = self.run(input, (n - 1) as nat);
            self.lemma_step_corresponds(self.parser_run(input, m), driver);
            if self.stride(driver) == 1 {
                m + 1
            } else {
                assert(self.parser_run(input, m + 1) == self.parser_step(
                    self.parser_run(input, m),
                ));
                assert(self.parser_run(input, m + 2) == self.parser_step(
                    self.parser_run(input, m + 1),
                ));
                m + 3
            }
        }
    }

    proof fn lemma_done_stays(
        self,
        input: Seq<Result<Lexeme, nat>>,
        m: nat,
        n: nat,
        outcome: Outcome,
    )
        requires
            m <= n,
            self.parser_run(input, m).control == Control::Done(outcome),
        ensures
            self.parser_run(input, n).control == Control::Done(outcome),
        decreases n,
    {
        if m < n {
            self.lemma_done_stays(input, m, (n - 1) as nat, outcome);
        }
    }

    /// If no state has conflicting reductions, the model of the generated parser
    /// and the automaton come to the same end: on every input, one ends if and only
    /// if the other does, with the same value or the same error.
    pub proof fn law_parser_keeps_meaning(
        self,
        input: Seq<Result<Lexeme, nat>>,
        outcome: Outcome,
    )
        requires
            self.is_conflict_free(),
        ensures
            self.parser_parses(input, outcome) <==> self.parses(input, outcome),
    {
        if self.parses(input, outcome) {
            let n = choose|n: nat| (#[trigger] self.run(input, n)).outcome == Some(outcome);
            let m = self.lemma_run_corresponds(input, n);
            assert(self.parser_run(input, m).control == Control::Done(outcome));
        }
        if self.parser_parses(input, outcome) {
            let n = choose|n: nat|
                (#[trigger] self.parser_run(input, n)).control == Control::Done(outcome);
            let m = self.lemma_run_corresponds(input, n);
            self.lemma_done_stays(input, n, m, outcome);
            assert(self.run(input, n).outcome == Some(outcome));
        }
    }
}

impl<'a, 'grammar> Input<'a, 'grammar> {
    /// The automaton that a parser is generated from, with its action code.
    pub open spec fn automaton(self, fails: spec_fn(Tree) -> bool, origin: int) -> Automaton<
        'grammar,
    > {
        Automaton {
            states: self.states@,
            start_symbol: self.start_symbol,
            type_of: |symbol: Symbol| self.grammar.types.type_of(symbol),
            fails,
            origin,
        }
    }

    /// The code for what a state does on a token is in the generated module.
    pub proof fn law_actions_have_code(
        self,
        fails: spec_fn(Tree) -> bool,
        origin: int,
        state: nat,
        token: Token,
    )
        requires
            state < self.states@.len(),
        ensures
            match self.automaton(fails, origin).arm(state, token) {
                Action::Shift(target) => {
                    &&& token matches Token::Terminal(t)
                    &&& occurs(self.shift_arm(state as int, t, target), self.module())
                },
                Action::Reduce(production) => exists|group: Group|
                    {
                        &&& group.production == production
                        &&& group.tokens.contains(token)
                        &&& occurs(#[trigger] self.reduce_arm(state as int, group), self.module())
                    },
                Action::Error => occurs(self.error(self.states@[state as int]), self.module()),
            },
    {
        let table = self.states@[state as int];
        let groups = self.groups(state as int);
        match self.automaton(fails, origin).arm(state, token) {
            Action::Shift(target) => {
                let t = token->Terminal_0;
                let k = choose|k: int|
                    0 <= k < table.shifts@.len() && (#[trigger] table.shifts@[k]).0 == t;
                lemma_first_shift(table, t, k);
                let i = choose|i: int| table.first_shift(t, i);
                self.law_shifts_are_tail_calls(state as int, i);
            },
            Action::Reduce(production) => {
                let i = choose|i: int| first_group(groups, token, i);
                self.law_reductions_are_tail_calls(state as int, i);
                assert(occurs(self.reduce_arm(state as int, groups[i]), self.module()));
            },
            Action::Error => {
                self.law_errors_return(state as int);
            },
        }
    }

    /// The code for a state's gotos is in the generated module.
    pub proof fn law_gotos_have_code(self, state: nat, n: NonterminalString)
        requires
            state < self.states@.len(),
            self.states@[state as int].has_goto(n),
        ensures
            occurs(self.goto_arm(n, self.states@[state as int].goto(n)), self.module()),
    {
        let table = self.states@[state as int];
        let k = choose|k: int| 0 <= k < table.gotos@.len() && (#[trigger] table.gotos@[k]).0 == n;
        lemma_first_goto(table, n, k);
        let i = choose|i: int| table.first_goto(n, i);
        self.law_gotos_are_tail_calls(state as int, i);
    }
}

/// If a shift has a terminal, there is a first one that has it.
proof fn lemma_first_shift<'grammar>(state: Lr1State<'grammar>, t: TerminalString, k: int)
    requires
        0 <= k < state.shifts@.len(),
        state.shifts@[k].0 == t,
    ensures
        exists|i: int| state.first_shift(t, i),
    decreases k,
{
    if exists|j: int| 0 <= j < k && (#[trigger] state.shifts@[j]).0 == t {
        let j = choose|j: int| 0 <= j < k && (#[trigger] state.shifts@[j]).0 == t;
        lemma_first_shift(state, t, j);
    } else {
        assert(state.first_shift(t, k));
    }
}

/// If a goto has a nonterminal, there is a first one that has it.
proof fn lemma_first_goto<'grammar>(state: Lr1State<'grammar>, n: NonterminalString, k: int)
    requires
        0 <= k < state.gotos@.len(),
        state.gotos@[k].0 == n,
    ensures
        exists|i: int| state.first_goto(n, i),
    decreases k,
{
    if exists|j: int| 0 <= j < k && (#[trigger] state.gotos@[j]).0 == n {
        let j = choose|j: int| 0 <= j < k && (#[trigger] state.gotos@[j]).0 == n;
        lemma_first_goto(state, n, j);
    } else {
        assert(state.first_goto(n, k));
    }
}

/// A token that triggers a production does so by a reduction.
proof fn lemma_trigger_source<'grammar>(
    reductions: Seq<Reduction<'grammar>>,
    production: ProductionView,
    n: nat,
    token: Token,
) -> (k: int)
    requires
        n <= reductions.len(),
        triggers(reductions, production, n).contains(token),
    ensures
        0 <= k < n,
        reductions[k].production@ == production,
        reductions[k].tokens@.contains(token),
    decreases n,
{
    let before = triggers(reductions, production, (n - 1) as nat);
    let all = triggers(reductions, production, n);
    let at = choose|at: int| 0 <= at < all.len() && all[at] == token;
    if at < before.len() {
        assert(before[at] == token);
        lemma_trigger_source(reductions, production, (n - 1) as nat, token)
    } else {
        let own = reductions[n - 1].tokens@;
        assert(own[at - before.len()] == token);
        n - 1
    }
}

/// The tokens of a reduction trigger its production.
proof fn lemma_trigger_target<'grammar>(
    reductions: Seq<Reduction<'grammar>>,
    n: nat,
    token: Token,
    k: int,
)
    requires
        0 <= k < n <= reductions.len(),
        reductions[k].tokens@.contains(token),
    ensures
        triggers(reductions, reductions[k].production@, n).contains(token),
    decreases n,
{
    let production = reductions[k].production@;
    let before = triggers(reductions, production, (n - 1) as nat);
    let all = triggers(reductions, production, n);
    if k < n - 1 {
        lemma_trigger_target(reductions, (n - 1) as nat, token, k);
        let at = choose|at: int| 0 <= at < before.len() && before[at] == token;
        assert(all[at] == token);
    } else {
        let own = reductions[k].tokens@;
        let at = choose|at: int| 0 <= at < own.len() && own[at] == token;
        assert(all[before.len() + at] == token);
    }
}

/// If a reduction has a token, there is a first one that has it.
proof fn lemma_first_reduction<'grammar>(state: Lr1State<'grammar>, token: Token, k: int)
    requires
        0 <= k < state.reductions@.len(),
        state.reductions@[k].tokens@.contains(token),
    ensures
        exists|i: int| state.first_reduction(token, i),
    decreases k,
{
    if exists|j: int| 0 <= j < k && (#[trigger] state.reductions@[j]).tokens@.contains(token) {
        let j = choose|j: int|
            0 <= j < k && (#[trigger] state.reductions@[j]).tokens@.contains(token);
        lemma_first_reduction(state, token, j);
    } else {
        assert(state.first_reduction(token, k));
    }
}

/// If a group has a token, there is a first one that has it.
proof fn lemma_first_group(groups: Seq<Group>, token: Token, k: int)
    requires
        0 <= k < groups.len(),
        groups[k].tokens.contains(token),
    ensures
        exists|i: int| first_group(groups, token, i),
    decreases k,
{
    if exists|j: int| 0 <= j < k && (#[trigger] groups[j]).tokens.contains(token) {
        let j = choose|j: int| 0 <= j < k && (#[trigger] groups[j]).tokens.contains(token);
        lemma_first_group(groups, token, j);
    } else {
        assert(first_group(groups, token, k));
    }
}

} // verus!
