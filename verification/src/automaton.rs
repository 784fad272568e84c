//! How an LR(1) automaton parses, driven by its table: the meaning that a
//! generated parser has to keep.
use crate::grammar::{NonterminalString, ProductionView, Symbol, TerminalString, TypeRepr};
use crate::lr1::{Lr1State, StateIndex, Token};
use vstd::prelude::*;

verus! {

/// A token of the input, between two locations.
pub struct Lexeme {
    pub terminal: TerminalString,
    pub start: int,
    pub end: int,
}

/// What was parsed: the value of a symbol, between two locations.
pub enum Tree {
    Leaf(Lexeme),
    Node { production: ProductionView, children: Seq<Tree>, start: int, end: int },
}

impl Tree {
    /// The symbol that was parsed.
    pub open spec fn symbol(self) -> Symbol {
        match self {
            Tree::Leaf(lexeme) => Symbol::Terminal(lexeme.terminal),
            Tree::Node { production, .. } => Symbol::Nonterminal(production.nonterminal),
        }
    }

    pub open spec fn start(self) -> int {
        match self {
            Tree::Leaf(lexeme) => lexeme.start,
            Tree::Node { start, .. } => start,
        }
    }

    pub open spec fn end(self) -> int {
        match self {
            Tree::Leaf(lexeme) => lexeme.end,
            Tree::Node { end, .. } => end,
        }
    }
}

/// How a parse ends.
pub enum Outcome {
    Accepted(Tree),
    /// the start symbol was complete, and a token was left
    ExtraToken(Lexeme),
    /// a state had no action for a token
    UnrecognizedToken(Lexeme, nat),
    /// a state had no action for the end of the input, at a location
    UnrecognizedEof(int, nat),
    /// the input had an error in place of a token
    TokenError(nat),
    /// the action code for a tree returned an error
    ActionError(Tree),
    /// the table leads nowhere, or to a reduction whose symbols are not on the
    /// stack
    Stuck,
}

/// What a state does on a token.
pub enum Action {
    Shift(StateIndex),
    Reduce(ProductionView),
    Error,
}

/// The tokens that are left of the input; some may be errors.
pub struct Tokens {
    pub lookahead: Option<Lexeme>,
    pub rest: Seq<Result<Lexeme, nat>>,
}

impl Tokens {
    /// The token of lookahead.
    pub open spec fn token(self) -> Token {
        match self.lookahead {
            Some(lexeme) => Token::Terminal(lexeme.terminal),
            None => Token::Eof,
        }
    }
}

/// The tokens of an input, with the first one as lookahead; or the error that
/// stands in its place.
pub open spec fn advance(rest: Seq<Result<Lexeme, nat>>) -> Result<Tokens, nat> {
    if rest.len() == 0 {
        Ok(Tokens { lookahead: None, rest })
    } else {
        match rest[0] {
            Ok(lexeme) => Ok(Tokens { lookahead: Some(lexeme), rest: rest.drop_first() }),
            Err(error) => Err(error),
        }
    }
}

/// An automaton, with its action code.
pub struct Automaton<'grammar> {
    pub states: Seq<Lr1State<'grammar>>,
    pub start_symbol: NonterminalString,
    /// the types of the symbols' values
    pub type_of: spec_fn(Symbol) -> TypeRepr,
    /// whether the action code for a tree returns an error
    pub fails: spec_fn(Tree) -> bool,
    /// the location that stands for no location
    pub origin: int,
}

/// A run of the automaton. The states on the stack are one more than the trees.
pub struct Driver {
    pub states: Seq<nat>,
    pub trees: Seq<Tree>,
    pub tokens: Tokens,
    pub outcome: Option<Outcome>,
}

impl Driver {
    pub open spec fn ends(self, outcome: Outcome) -> Driver {
        Driver { outcome: Some(outcome), ..self }
    }
}

impl<'grammar> Automaton<'grammar> {
    /// What a state does on a token.
    pub open spec fn action(self, state: nat, token: Token) -> Action {
        let state = self.states[state as int];
        match token {
            Token::Terminal(t) if state.shifts_on(t) => Action::Shift(state.shift(t)),
            _ => if state.reduces_on(token) {
                Action::Reduce(state.reduction(token))
            } else {
                Action::Error
            },
        }
    }

    /// Whether the values that a production takes are on top of `trees`.
    pub open spec fn fits(self, production: ProductionView, trees: Seq<Tree>) -> bool {
        let n = production.symbols.len();
        &&& n <= trees.len()
        &&& forall|i: int|
            0 <= i < n ==> (self.type_of)(#[trigger] production.symbols[i]) == (self.type_of)(
                trees[trees.len() - n + i].symbol(),
            )
    }

    /// The end of the last tree, if there is one.
    pub open spec fn last_end(self, trees: Seq<Tree>) -> int {
        if trees.len() == 0 {
            self.origin
        } else {
            trees.last().end()
        }
    }

    /// The tree for a production, with its children on top of `trees`. The span
    /// of no children is empty: it is anchored at the lookahead, or failing that
    /// at the end of the last tree.
    pub open spec fn tree(
        self,
        production: ProductionView,
        trees: Seq<Tree>,
        tokens: Tokens,
    ) -> Tree {
        let n = production.symbols.len();
        if n == 0 {
            let at = match tokens.lookahead {
                Some(lexeme) => lexeme.start,
                None => self.last_end(trees),
            };
            Tree::Node { production, children: seq![], start: at, end: at }
        } else {
            let children = trees.skip(trees.len() - n);
            Tree::Node {
                production,
                children,
                start: children[0].start(),
                end: children.last().end(),
            }
        }
    }

    /// The error of a state that has no action for the lookahead.
    pub open spec fn unrecognized(self, state: nat, trees: Seq<Tree>, tokens: Tokens) -> Outcome {
        match tokens.lookahead {
            Some(lexeme) => Outcome::UnrecognizedToken(lexeme, state),
            None => Outcome::UnrecognizedEof(self.last_end(trees), state),
        }
    }

    /// What the start production ends in.
    pub open spec fn accepted(self, tree: Tree, tokens: Tokens) -> Outcome {
        match tokens.lookahead {
            None => Outcome::Accepted(tree),
            Some(lexeme) => Outcome::ExtraToken(lexeme),
        }
    }

    pub open spec fn start(self, input: Seq<Result<Lexeme, nat>>) -> Driver {
        match advance(input) {
            Ok(tokens) => Driver { states: seq![0], trees: seq![], tokens, outcome: None },
            Err(error) => Driver {
                states: seq![0],
                trees: seq![],
                tokens: Tokens { lookahead: None, rest: input },
                outcome: Some(Outcome::TokenError(error)),
            },
        }
    }

    /// Pushes the lookahead and goes on to `target`.
    pub open spec fn shifted(self, driver: Driver, target: StateIndex) -> Driver {
        match (driver.tokens.lookahead, advance(driver.tokens.rest)) {
            (Some(lexeme), Ok(tokens)) => Driver {
                states: driver.states.push(target.0 as nat),
                trees: driver.trees.push(Tree::Leaf(lexeme)),
                tokens,
                outcome: None,
            },
            (Some(_), Err(error)) => driver.ends(Outcome::TokenError(error)),
            (None, _) => driver,
        }
    }

    /// Pops the children of a production, pushes their tree and goes on as the
    /// state below says; or accepts, if it is the start production.
    pub open spec fn reduced(self, driver: Driver, production: ProductionView) -> Driver {
        let n = production.symbols.len();
        if !self.fits(production, driver.trees) {
            driver.ends(Outcome::Stuck)
        } else {
            let tree = self.tree(production, driver.trees, driver.tokens);
            let states = driver.states.take(driver.states.len() - n);
            let below = states.last();
            if (self.fails)(tree) {
                driver.ends(Outcome::ActionError(tree))
            } else if production.nonterminal == self.start_symbol {
                driver.ends(self.accepted(tree, driver.tokens))
            } else if below >= self.states.len()
                || !self.states[below as int].has_goto(production.nonterminal) {
                driver.ends(Outcome::Stuck)
            } else {
                let target = self.states[below as int].goto(production.nonterminal);
                Driver {
                    states: states.push(target.0 as nat),
                    trees: driver.trees.take(driver.trees.len() - n).push(tree),
                    tokens: driver.tokens,
                    outcome: None,
                }
            }
        }
    }

    /// One step of the automaton.
    pub open spec fn step(self, driver: Driver) -> Driver {
        let state = driver.states.last();
        if driver.outcome is Some {
            driver
        } else if state >= self.states.len() {
            driver.ends(Outcome::Stuck)
        } else {
            match self.action(state, driver.tokens.token()) {
                Action::Shift(target) => self.shifted(driver, target),
                Action::Reduce(production) => self.reduced(driver, production),
                Action::Error => driver.ends(
                    self.unrecognized(state, driver.trees, driver.tokens),
                ),
            }
        }
    }

    /// The automaton after `n` steps.
    pub open spec fn run(self, input: Seq<Result<Lexeme, nat>>, n: nat) -> Driver
        decreases n,
    {
        if n == 0 {
            self.start(input)
        } else {
            self.step(self.run(input, (n - 1) as nat))
        }
    }

    /// Whether the parse of an input ends, and how.
    pub open spec fn parses(self, input: Seq<Result<Lexeme, nat>>, outcome: Outcome) -> bool {
        exists|n: nat| (#[trigger] self.run(input, n)).outcome == Some(outcome)
    }

    pub open spec fn is_conflict_free(self) -> bool {
        forall|i: int| 0 <= i < self.states.len() ==> (#[trigger] self.states[i]).is_conflict_free()
    }
}

} // verus!
