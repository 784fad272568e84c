//! What a parser is generated from, and the names and types that recur in the
//! generated code.
use crate::grammar::{Grammar, NonterminalString, ProductionView, Symbol, TypeParameter, TypeRepr};
use crate::lr1::{Lr1State, Reduction, Token};
use crate::text::{decimal, join, Line};
use vstd::prelude::*;

verus! {

/// The code around the parser's own: the module it stands in, and the function
/// that users call.
pub struct Frame {
    /// opens the module, up to and with its imports
    pub module_open: Vec<String>,
    /// opens the function that users call
    pub parser_fn_open: Vec<String>,
    /// binds the iterator over the input's tokens
    pub tokens: Vec<String>,
    /// closes the function that users call
    pub parser_fn_close: Vec<String>,
    pub module_close: Vec<String>,
}

/// All that a parser is generated from.
pub struct Input<'a, 'grammar> {
    pub grammar: &'grammar Grammar,
    /// the start symbol that users see; the frame speaks of it
    pub user_start_symbol: NonterminalString,
    /// the start symbol of the automaton
    pub start_symbol: NonterminalString,
    pub states: &'a [Lr1State<'grammar>],
    /// the path of the module that holds the action code
    pub action_module: &'a str,
    pub frame: &'a Frame,
    /// whether to explain the states in comments
    pub emit_comments: bool,
}

/// A function of the generated module, other than those that users call.
pub enum Function {
    State(nat),
    Goto(nat),
    Reduce(nat),
    CallAction(nat),
    Pop(nat),
    NextToken,
    SymbolTypeMismatch,
}

impl<'a, 'grammar> Input<'a, 'grammar> {
    /// Whether a state can look ahead to `token`. Error recovery is not
    /// supported.
    pub open spec fn supports_token(self, token: Token) -> bool {
        match token {
            Token::Eof => true,
            Token::Error => false,
            Token::Terminal(t) => self.grammar.has_terminal(t),
        }
    }

    /// Whether `state` can perform `reduction`.
    pub open spec fn supports_reduction(
        self,
        state: Lr1State<'grammar>,
        reduction: Reduction<'grammar>,
    ) -> bool {
        let production = reduction.production@;
        &&& self.grammar.resolves(production)
        &&& reduction.tokens@.len() > 0 ==> self.grammar.productions().contains(production)
        &&& forall|i: int|
            0 <= i < reduction.tokens@.len() ==> self.supports_token(#[trigger] reduction.tokens@[i])
        &&& reduction.tokens@.len() > 0 && production.symbols.len() == 0 ==> {
            &&& production.nonterminal != self.start_symbol
            &&& state.has_goto(production.nonterminal)
        }
    }

    /// Whether all that `state` refers to is in the grammar.
    pub open spec fn supports_state(self, state: Lr1State<'grammar>) -> bool {
        &&& forall|i: int|
            0 <= i < state.shifts@.len() ==> self.grammar.has_terminal(
                (#[trigger] state.shifts@[i]).0,
            )
        &&& forall|i: int|
            0 <= i < state.reductions@.len() ==> self.supports_reduction(
                state,
                #[trigger] state.reductions@[i],
            )
        &&& forall|i: int|
            0 <= i < state.gotos@.len() ==> self.grammar.has_nonterminal(
                (#[trigger] state.gotos@[i]).0,
            )
    }

    /// The inputs that a parser can be generated from.
    pub open spec fn wf(self) -> bool {
        &&& self.grammar.wf()
        &&& self.grammar.has_nonterminal(self.start_symbol)
        &&& forall|i: int|
            0 <= i < self.states@.len() ==> self.supports_state(#[trigger] self.states@[i])
    }

    /// The prefix of the names that the generated code introduces.
    pub open spec fn prefix(self) -> Line {
        self.grammar.prefix@
    }

    /// The bound on the token iterator.
    pub open spec fn tokens_bound_text(self) -> Line {
        let p = self.prefix();
        let triple = self.grammar.types.triple();
        let error = self.grammar.types.error();
        p + "TOKENS: Iterator<Item = Result<"@ + triple + ", "@ + error + ">>"@
    }

    /// The type parameters of the generated functions.
    pub open spec fn fn_type_parameters(self) -> Seq<Line> {
        self.grammar.type_parameter_names().push(self.tokens_bound_text())
    }

    /// The type parameters of the generated types, as they are declared.
    pub open spec fn type_decls(self) -> Line {
        join(", "@, self.fn_type_parameters())
    }

    /// The type parameters of the generated types, as they are used.
    pub open spec fn type_args(self) -> Line {
        join(", "@, self.grammar.type_parameter_names().push(self.prefix() + "TOKENS"@))
    }

    /// The where clauses of the generated types: the grammar's. The bound on the
    /// token iterator stands with the type parameters.
    pub open spec fn type_where(self) -> Line {
        join(", "@, self.grammar.where_clause_texts())
    }

    /// The parameter types that all parser functions share.
    pub open spec fn fn_params(self) -> Line {
        let p = self.prefix();
        let args = self.type_args();
        let parser = "&mut "@ + p + "Parser<"@ + args + ">"@;
        join(", "@, self.grammar.parameter_types().push(parser))
    }

    /// What the parser returns.
    pub open spec fn result_text(self) -> Line {
        let types = self.grammar.types;
        let value = types.text_of(types.type_of(Symbol::Nonterminal(self.start_symbol)));
        let error = types.error();
        "Result<"@ + value + ", "@ + error + ">"@
    }

    /// Whether a symbol's type refers to type parameter `i`.
    pub open spec fn parameter_is_used(self, i: usize) -> bool {
        let types = self.grammar.types;
        ||| exists|n: int|
            0 <= n < types.nonterminal_types@.len() && types.all@[(
            #[trigger] types.nonterminal_types@[n]).0 as int].referenced@.contains(i)
        ||| exists|t: int|
            0 <= t < types.terminal_types@.len() && (#[trigger] types.terminal_types@[t] matches Some(
                ty,
            ) && types.all@[ty.0 as int].referenced@.contains(i))
    }

    /// Whether a where clause speaks only of parameters that the symbols' types
    /// refer to.
    pub open spec fn clause_is_used(self, clause: int) -> bool {
        let referenced = self.grammar.where_clauses@[clause].referenced@;
        forall|k: int|
            0 <= k < referenced.len() ==> {
                &&& #[trigger] referenced[k] < self.grammar.type_parameters@.len()
                &&& self.parameter_is_used(referenced[k])
            }
    }

    /// Those of the first `n` type parameters that the symbols' types refer to.
    pub open spec fn used_parameters(self, n: nat) -> Seq<Line>
        decreases n,
    {
        if n == 0 {
            seq![]
        } else {
            let before = self.used_parameters((n - 1) as nat);
            if self.parameter_is_used((n - 1) as usize) {
                before.push(self.grammar.type_parameters@[n - 1].name())
            } else {
                before
            }
        }
    }

    /// Those of the first `n` where clauses that speak only of parameters that
    /// the symbols' types refer to.
    pub open spec fn used_clauses(self, n: nat) -> Seq<Line>
        decreases n,
    {
        if n == 0 {
            seq![]
        } else {
            let before = self.used_clauses((n - 1) as nat);
            if self.clause_is_used(n - 1) {
                before.push(self.grammar.where_clauses@[n - 1].text@)
            } else {
                before
            }
        }
    }

    /// The type parameters of the type of symbols.
    pub open spec fn symbol_parameters(self) -> Seq<Line> {
        self.used_parameters(self.grammar.type_parameters@.len())
    }

    /// The where clauses of the type of symbols.
    pub open spec fn symbol_clauses(self) -> Seq<Line> {
        self.used_clauses(self.grammar.where_clauses@.len())
    }

    /// A symbol between two locations.
    pub open spec fn spanned_symbol(self) -> Line {
        let p = self.prefix();
        let loc = self.grammar.types.loc();
        let parameters = join(", "@, self.symbol_parameters());
        "("@ + loc + ", "@ + p + "Symbol<"@ + parameters + ">, "@ + loc + ")"@
    }

    /// The parse stack: spanned symbols, each with a continuation.
    pub open spec fn stack_type(self) -> Line {
        let p = self.prefix();
        let symbol = self.spanned_symbol();
        let args = self.type_args();
        "alloc::vec::Vec<("@ + symbol + ", "@ + p + "Goto<"@ + args + ">)>"@
    }

    /// The type parameters, as the members of a phantom type.
    pub open spec fn phantom_types(self) -> Seq<Line> {
        Seq::new(
            self.grammar.type_parameters@.len(),
            |i: int|
                match self.grammar.type_parameters@[i] {
                    TypeParameter::Lifetime(name) => "&"@ + name@ + " ()"@,
                    TypeParameter::Id(name) => name@,
                },
        )
    }

    /// The type parameters, as the members of a phantom type in an expression.
    pub open spec fn phantom_exprs(self) -> Seq<Line> {
        Seq::new(
            self.grammar.type_parameters@.len(),
            |i: int|
                match self.grammar.type_parameters@[i] {
                    TypeParameter::Lifetime(_) => "&()"@,
                    TypeParameter::Id(name) => name@,
                },
        )
    }

    /// A type that mentions every type parameter.
    pub open spec fn phantom_type(self) -> Line {
        let members = join(", "@, self.phantom_types());
        "core::marker::PhantomData<("@ + members + ")>"@
    }

    /// A value of the type that mentions every type parameter.
    pub open spec fn phantom_expr(self) -> Line {
        let members = join(", "@, self.phantom_exprs());
        "core::marker::PhantomData::<("@ + members + ")>"@
    }

    /// All symbols: the terminals, then the nonterminals.
    pub open spec fn symbol(self, i: int) -> Symbol {
        let terminals = self.grammar.terminals@.len();
        if i < terminals {
            Symbol::Terminal(crate::grammar::TerminalString(i as usize))
        } else {
            Symbol::Nonterminal(NonterminalString((i - terminals) as usize))
        }
    }

    pub open spec fn symbol_count(self) -> nat {
        self.grammar.terminals@.len() + self.grammar.nonterminals@.len()
    }

    /// The types of the first `n` symbols, each once, in the order in which they
    /// first occur.
    pub open spec fn types_to(self, n: nat) -> Seq<TypeRepr>
        decreases n,
    {
        if n == 0 {
            seq![]
        } else {
            let before = self.types_to((n - 1) as nat);
            let ty = self.grammar.types.type_of(self.symbol(n - 1));
            if before.contains(ty) {
                before
            } else {
                before.push(ty)
            }
        }
    }

    /// The types of all symbols, each once: variant `k` is of type `k`.
    pub open spec fn variant_types(self) -> Seq<TypeRepr> {
        self.types_to(self.symbol_count())
    }

    /// The name of variant `k`.
    pub open spec fn variant(self, k: int) -> Line {
        "Variant"@ + decimal(k as nat)
    }

    /// The name of the variant for values of type `ty`.
    pub open spec fn variant_of(self, ty: TypeRepr) -> Line {
        self.variant(self.variant_types().index_of(ty))
    }

    /// The name of the variant that a symbol's values are stored in.
    pub open spec fn variant_for(self, symbol: Symbol) -> Line {
        self.variant_of(self.grammar.types.type_of(symbol))
    }

    pub open spec fn is_last_index(self, production: ProductionView, i: int) -> bool {
        let productions = self.grammar.productions();
        &&& 0 <= i < productions.len()
        &&& productions[i] == production
        &&& forall|j: int| i < j < productions.len() ==> #[trigger] productions[j] != production
    }

    /// The index of a production among all of them.
    pub open spec fn reduce_index(self, production: ProductionView) -> int {
        choose|i: int| self.is_last_index(production, i)
    }

    /// A production, as it is shown in comments.
    pub open spec fn production_text(self, production: ProductionView) -> Line {
        let nonterminal = self.grammar.name_of(Symbol::Nonterminal(production.nonterminal));
        let symbols = join(
            ", "@,
            Seq::new(
                production.symbols.len(),
                |i: int| self.grammar.name_of(production.symbols[i]),
            ),
        );
        let action = decimal(production.action.0 as nat);
        nonterminal + " = "@ + symbols + " => ActionFn("@ + action + ");"@
    }

    /// The call of the function `name` of a state, in tail position.
    pub open spec fn transition(self, name: Line) -> Line {
        let p = self.prefix();
        let refs = self.grammar.user_refs();
        p + "transition!("@ + name + "("@ + refs + p + "parser))"@
    }

    /// The name of a function.
    pub open spec fn function_name(self, function: Function) -> Line {
        let p = self.prefix();
        match function {
            Function::State(i) => p + "state"@ + decimal(i),
            Function::Goto(i) => p + "goto"@ + decimal(i),
            Function::Reduce(i) => p + "reduce"@ + decimal(i),
            Function::CallAction(i) => p + "call_action"@ + decimal(i),
            Function::Pop(k) => p + "pop_"@ + self.variant(k as int),
            Function::NextToken => p + "next_token"@,
            Function::SymbolTypeMismatch => p + "symbol_type_mismatch"@,
        }
    }

    /// The name of a state's function.
    pub open spec fn state_name(self, state: nat) -> Line {
        self.function_name(Function::State(state))
    }

    /// The name of a state's goto function.
    pub open spec fn goto_name(self, state: nat) -> Line {
        self.function_name(Function::Goto(state))
    }

    /// The name of the function that reduces a production.
    pub open spec fn reduce_name(self, production: ProductionView) -> Line {
        self.function_name(Function::Reduce(self.reduce_index(production) as nat))
    }

    /// The name of the function that calls a production's action code.
    pub open spec fn action_name(self, production: ProductionView) -> Line {
        self.function_name(Function::CallAction(self.reduce_index(production) as nat))
    }

    /// The name of the function that pops a value of type `ty`.
    pub open spec fn pop_name(self, ty: TypeRepr) -> Line {
        self.function_name(Function::Pop(self.variant_types().index_of(ty) as nat))
    }
}

} // verus!
