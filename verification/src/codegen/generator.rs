//! The generator, and the names and types that recur in the generated code.
use crate::codegen::input::{Frame, Input};
use crate::grammar::{
    production_views, Grammar, NonterminalString, Production, ProductionView, Symbol, TypeParameter,
    TypeRepr,
};
use crate::lr1::{Lr1State, StateIndex};
use crate::text::{decimal_text, join_text, views, Line};
use vstd::pervasive::unreached;
use vstd::prelude::*;

verus! {

/// Whether entry `i` of a table is the first one for `key`.
pub open spec fn first_entry<K, X>(table: Seq<(K, X)>, key: K, i: int) -> bool {
    &&& 0 <= i < table.len()
    &&& table[i].0 == key
    &&& forall|j: int| 0 <= j < i ==> (#[trigger] table[j]).0 != key
}

/// Whether a table has an entry for `key`.
pub open spec fn has_entry<K, X>(table: Seq<(K, X)>, key: K) -> bool {
    exists|i: int| first_entry(table, key, i)
}

/// What a table has for `key`.
pub open spec fn entry<K, X>(table: Seq<(K, X)>, key: K) -> X {
    table[choose|i: int| first_entry(table, key, i)].1
}

/// A table with `value` for `key`: in place of what it has for `key`, else behind
/// all other entries.
pub open spec fn with_entry<K, X>(table: Seq<(K, X)>, key: K, value: X) -> Seq<(K, X)> {
    if has_entry(table, key) {
        table.update(choose|i: int| first_entry(table, key, i), (key, value))
    } else {
        table.push((key, value))
    }
}

/// If an entry has a key, there is a first one that has it.
pub proof fn lemma_entry_exists<K, X>(table: Seq<(K, X)>, key: K, k: int)
    requires
        0 <= k < table.len(),
        table[k].0 == key,
    ensures
        has_entry(table, key),
    decreases k,
{
    if exists|j: int| 0 <= j < k && (#[trigger] table[j]).0 == key {
        let j = choose|j: int| 0 <= j < k && (#[trigger] table[j]).0 == key;
        lemma_entry_exists(table, key, j);
    } else {
        assert(first_entry(table, key, k));
    }
}

/// There is one first entry for a key.
pub proof fn lemma_first_entry<K, X>(table: Seq<(K, X)>, key: K, i: int)
    requires
        first_entry(table, key, i),
    ensures
        has_entry(table, key),
        i == choose|k: int| first_entry(table, key, k),
{
    let k = choose|k: int| first_entry(table, key, k);
    assert(first_entry(table, key, k));
    assert(table[k].0 == key && table[i].0 == key);
}

/// What a table has for a key is what its first entry for the key says.
pub proof fn law_entries<K, X>(table: Seq<(K, X)>, key: K, i: int)
    requires
        0 <= i < table.len(),
        table[i].0 == key,
        forall|j: int| 0 <= j < i ==> (#[trigger] table[j]).0 != key,
    ensures
        has_entry(table, key),
        entry(table, key) == table[i].1,
{
    assert(first_entry(table, key, i));
    lemma_first_entry(table, key, i);
}

/// Setting the entry of a key changes what a table has for the key, and nothing
/// else.
pub proof fn law_with_entry<K, X>(table: Seq<(K, X)>, key: K, value: X, other: K)
    ensures
        has_entry(with_entry(table, key, value), key),
        entry(with_entry(table, key, value), key) == value,
        other != key ==> has_entry(with_entry(table, key, value), other) == has_entry(table, other),
        other != key && has_entry(table, other) ==> entry(with_entry(table, key, value), other)
            == entry(table, other),
        !has_entry(table, key) ==> with_entry(table, key, value).len() == table.len() + 1,
        has_entry(table, key) ==> with_entry(table, key, value).len() == table.len(),
{
    let set = with_entry(table, key, value);
    if has_entry(table, key) {
        let i = choose|i: int| first_entry(table, key, i);
        assert forall|j: int| 0 <= j < i implies (#[trigger] set[j]).0 != key by {
            assert(table[j].0 != key);
        }
        lemma_first_entry(set, key, i);
    } else {
        let n = table.len() as int;
        assert forall|j: int| 0 <= j < n implies (#[trigger] set[j]).0 != key by {
            if table[j].0 == key {
                lemma_entry_exists(table, key, j);
            }
        }
        lemma_first_entry(set, key, n);
    }
    if other != key {
        if has_entry(table, other) {
            let i = choose|i: int| first_entry(table, other, i);
            assert(set[i] == table[i]);
            assert forall|j: int| 0 <= j < i implies (#[trigger] set[j]).0 != other by {
                assert(table[j].0 != other);
            }
            lemma_first_entry(set, other, i);
        }
        if has_entry(set, other) {
            let i = choose|i: int| first_entry(set, other, i);
            assert(set[i].0 == other);
            assert(i < table.len() && table[i].0 == other);
            lemma_entry_exists(table, other, i);
        }
    }
}

/// What the generator works out about the input.
pub struct TailCall<'grammar> {
    /// type parameters for the type of symbols
    pub symbol_type_params: Vec<String>,
    /// where clauses for the type of symbols
    pub symbol_where_clauses: Vec<String>,
    /// a list of each nonterminal in some specific order; the position of a
    /// nonterminal in this list is the discriminant communicated to the goto
    /// functions through the `reduced_nt` field of the parser struct
    pub all_nonterminals: Vec<NonterminalString>,
    /// every production; its last position is the index that names its `reduceN`
    /// function
    pub reduce_indices: Vec<&'grammar Production>,
    /// the variant for each symbol
    pub variant_names: Vec<(Symbol, String)>,
    /// the variant for each type, in the order of the variants
    pub variants: Vec<(TypeRepr, String)>,
}

impl<'grammar> TailCall<'grammar> {
    /// The names of the variants, by type.
    pub open spec fn variant_table(self) -> Seq<(TypeRepr, Line)> {
        Seq::new(self.variants@.len(), |k: int| (self.variants@[k].0, self.variants@[k].1@))
    }

    /// The names of the variants, by symbol.
    pub open spec fn name_table(self) -> Seq<(Symbol, Line)> {
        Seq::new(
            self.variant_names@.len(),
            |i: int| (self.variant_names@[i].0, self.variant_names@[i].1@),
        )
    }

    /// The two differ in the variants at most.
    pub open spec fn same_but_variants(self, other: TailCall<'grammar>) -> bool {
        &&& self.symbol_type_params == other.symbol_type_params
        &&& self.symbol_where_clauses == other.symbol_where_clauses
        &&& self.all_nonterminals == other.all_nonterminals
        &&& self.reduce_indices == other.reduce_indices
    }
}

/// Generates a parser.
pub struct CodeGenerator<'a, 'grammar> {
    pub input: Input<'a, 'grammar>,
    pub custom: TailCall<'grammar>,
}

impl<'a, 'grammar> CodeGenerator<'a, 'grammar> {
    /// The input is one that a parser can be generated from, and what has been
    /// worked out of it is right.
    pub open spec fn wf(self) -> bool {
        &&& self.input.wf()
        &&& views(self.custom.symbol_type_params@) == self.input.symbol_parameters()
        &&& views(self.custom.symbol_where_clauses@) == self.input.symbol_clauses()
        &&& self.custom.all_nonterminals@ == Seq::new(
            self.input.grammar.nonterminals@.len(),
            |i: int| NonterminalString(i as usize),
        )
        &&& production_views(self.custom.reduce_indices@) == self.input.grammar.productions()
    }

    /// The first `n` symbols have their variants.
    pub open spec fn names_to(self, n: nat) -> bool {
        let types = self.input.types_to(n);
        &&& self.custom.variants@.len() == types.len()
        &&& forall|k: int|
            #![trigger self.custom.variants@[k]]
            0 <= k < types.len() ==> {
                &&& self.custom.variants@[k].0 == types[k]
                &&& self.custom.variants@[k].1@ == self.input.variant(k)
            }
        &&& self.custom.variant_names@.len() == n
        &&& forall|i: int|
            #![trigger self.custom.variant_names@[i]]
            0 <= i < n ==> {
                &&& self.custom.variant_names@[i].0 == self.input.symbol(i)
                &&& self.custom.variant_names@[i].1@ == self.input.variant(
                    types.index_of(self.input.grammar.types.type_of(self.input.symbol(i))),
                )
            }
    }

    /// All symbols have their variants.
    pub open spec fn named(self) -> bool {
        self.names_to(self.input.symbol_count())
    }

    /// Works out what the generator needs to know about the input.
    pub fn new_tail_call(
        grammar: &'grammar Grammar,
        user_start_symbol: NonterminalString,
        start_symbol: NonterminalString,
        states: &'a [Lr1State<'grammar>],
        action_module: &'a str,
        frame: &'a Frame,
        emit_comments: bool,
    ) -> (generator: Self)
        requires
            (Input {
                grammar,
                user_start_symbol,
                start_symbol,
                states,
                action_module,
                frame,
                emit_comments,
            }).wf(),
        ensures
            generator.input == (Input {
                grammar,
                user_start_symbol,
                start_symbol,
                states,
                action_module,
                frame,
                emit_comments,
            }),
            generator.wf(),
            generator.names_to(0),
    {
        let input = Input {
            grammar,
            user_start_symbol,
            start_symbol,
            states,
            action_module,
            frame,
            emit_comments,
        };
        let (symbol_type_params, symbol_where_clauses) =
            input.filter_type_parameters_and_where_clauses();
        let mut all_nonterminals: Vec<NonterminalString> = Vec::new();
        let mut n: usize = 0;
        while n < grammar.nonterminals.len()
            invariant
                n <= grammar.nonterminals.len(),
                all_nonterminals@ == Seq::new(n as nat, |i: int| NonterminalString(i as usize)),
            decreases grammar.nonterminals.len() - n,
        {
            all_nonterminals.push(NonterminalString(n));
            n += 1;
            assert(all_nonterminals@ =~= Seq::new(
                n as nat,
                |i: int| NonterminalString(i as usize),
            ));
        }
        let reduce_indices: Vec<&'grammar Production> = grammar.all_productions();
        CodeGenerator {
            input,
            custom: TailCall {
                symbol_type_params,
                symbol_where_clauses,
                all_nonterminals,
                reduce_indices,
                variant_names: Vec::new(),
                variants: Vec::new(),
            },
        }
    }

    pub fn prefix(&self) -> (prefix: &'grammar str)
        ensures
            prefix@ == self.input.prefix(),
    {
        self.input.grammar.prefix.as_str()
    }

    /// The position of the entry for a symbol among the names of the variants.
    pub(crate) fn position_of_symbol(&self, symbol: Symbol) -> (position: Option<usize>)
        ensures
            match position {
                Some(i) => first_entry(self.custom.name_table(), symbol, i as int),
                None => !has_entry(self.custom.name_table(), symbol),
            },
    {
        let mut i: usize = 0;
        while i < self.custom.variant_names.len()
            invariant
                i <= self.custom.variant_names.len(),
                forall|j: int|
                    0 <= j < i ==> (#[trigger] self.custom.variant_names@[j]).0 != symbol,
            decreases self.custom.variant_names.len() - i,
        {
            if self.custom.variant_names[i].0 == symbol {
                proof {
                    let table = self.custom.name_table();
                    assert forall|j: int| 0 <= j < i implies (#[trigger] table[j]).0 != symbol by {
                        assert(self.custom.variant_names@[j].0 != symbol);
                    }
                }
                return Some(i);
            }
            i += 1;
        }
        proof {
            let table = self.custom.name_table();
            assert forall|i: int| !first_entry(table, symbol, i) by {
                if 0 <= i < table.len() {
                    assert(self.custom.variant_names@[i].0 != symbol);
                }
            }
        }
        None
    }

    /// The variant that a symbol's values are stored in. The symbol has one.
    pub fn variant_name_for_symbol(&self, symbol: Symbol) -> (name: String)
        requires
            has_entry(self.custom.name_table(), symbol),
        ensures
            name@ == entry(self.custom.name_table(), symbol),
    {
        match self.position_of_symbol(symbol) {
            Some(i) => {
                proof {
                    lemma_first_entry(self.custom.name_table(), symbol, i as int);
                }
                self.custom.variant_names[i].1.clone()
            },
            None => unreached(),
        }
    }

    /// When all symbols have their variants, a symbol has that of its type.
    pub proof fn lemma_symbol_named(self, symbol: Symbol)
        requires
            self.named(),
            self.input.grammar.has_symbol(symbol),
        ensures
            has_entry(self.custom.name_table(), symbol),
            entry(self.custom.name_table(), symbol) == self.input.variant_for(symbol),
    {
        let table = self.custom.name_table();
        let k = self.input.position_of(symbol);
        assert(self.custom.variant_names@[k].0 == self.input.symbol(k));
        assert(table[k].0 == symbol);
        lemma_entry_exists(table, symbol, k);
        let i = choose|i: int| first_entry(table, symbol, i);
        assert(self.custom.variant_names@[i].0 == symbol);
    }

    /// The discriminant of a nonterminal.
    pub fn nonterminal_index(&self, nt: NonterminalString) -> (index: usize)
        requires
            self.wf(),
            self.input.grammar.has_nonterminal(nt),
        ensures
            index == nt.0,
    {
        let mut i: usize = 0;
        while self.custom.all_nonterminals[i] != nt
            invariant
                self.wf(),
                self.input.grammar.has_nonterminal(nt),
                i <= nt.0,
            decreases nt.0 - i,
        {
            i += 1;
        }
        i
    }

    /// The index that names a production's functions.
    pub fn reduce_index(&self, production: &Production) -> (index: usize)
        requires
            self.wf(),
            self.input.grammar.productions().contains(production@),
        ensures
            self.input.is_last_index(production@, index as int),
            index == self.input.reduce_index(production@),
    {
        let mut i: usize = self.custom.reduce_indices.len();
        let ghost productions = self.input.grammar.productions();
        let ghost k = productions.index_of(production@);
        while i > 0
            invariant
                self.wf(),
                productions == self.input.grammar.productions(),
                0 <= k < productions.len(),
                productions[k] == production@,
                i <= self.custom.reduce_indices.len(),
                k < i,
                forall|j: int| i <= j < productions.len() ==> productions[j] != production@,
            decreases i,
        {
            i -= 1;
            assert(productions[i as int] == self.custom.reduce_indices@[i as int]@);
            if self.custom.reduce_indices[i].is_same(production) {
                proof {
                    assert(self.input.is_last_index(production@, i as int));
                    self.input.lemma_last_index(production@, i as int);
                }
                return i;
            }
        }
        i
    }

    /// The bound on the token iterator.
    pub fn tokens_bound(&self) -> (text: String)
        requires
            self.wf(),
        ensures
            text@ == self.input.tokens_bound_text(),
    {
        let p = self.prefix();
        let triple_type = self.triple_type();
        let triple = triple_type.as_str();
        let error = self.input.grammar.types.parse_error_type();
        p.to_owned().concat("TOKENS: Iterator<Item = Result<").concat(triple).concat(", ")
            .concat(error).concat(">>")
    }

    /// The type parameters of the generated functions.
    pub fn fn_type_parameter_list(&self) -> (list: Vec<String>)
        requires
            self.wf(),
        ensures
            views(list@) == self.input.fn_type_parameters(),
    {
        let mut list = self.input.grammar.type_parameter_list();
        let ghost before = list@;
        list.push(self.tokens_bound());
        assert(views(list@) =~= views(before).push(self.input.tokens_bound_text()));
        list
    }

    /// The declaration list for the parser/goto types and functions: the
    /// grammar's type parameters followed by the token iterator.
    pub fn parser_type_decls(&self) -> (text: String)
        requires
            self.wf(),
        ensures
            text@ == self.input.type_decls(),
    {
        join_text(", ", &self.fn_type_parameter_list())
    }

    /// Same as `parser_type_decls`, but as an argument list (no bounds).
    pub fn parser_type_args(&self) -> (text: String)
        ensures
            text@ == self.input.type_args(),
    {
        let mut args = self.input.grammar.type_parameter_list();
        let ghost before = args@;
        args.push(self.prefix().to_owned().concat("TOKENS"));
        assert(views(args@) =~= views(before).push(self.input.prefix() + "TOKENS"@));
        join_text(", ", &args)
    }

    /// Where clauses for the parser/goto types: the grammar's, if any. (The
    /// token iterator bound lives in the declaration list.)
    pub fn parser_where_clauses(&self) -> (text: String)
        ensures
            text@ == self.input.type_where(),
    {
        join_text(", ", &self.input.grammar.where_clause_list())
    }

    /// The parameter types of the unified fn signature, for the fn pointer
    /// type inside `Goto`.
    pub fn unified_fn_params(&self) -> (text: String)
        requires
            self.wf(),
        ensures
            text@ == self.input.fn_params(),
    {
        let p = self.prefix();
        let type_args = self.parser_type_args();
        let args = type_args.as_str();
        let mut params = self.input.grammar.parameter_type_list();
        let ghost before = params@;
        let parser = "&mut ".to_owned().concat(p).concat("Parser<").concat(args).concat(">");
        params.push(parser);
        assert(views(params@) =~= views(before).push(parser@));
        join_text(", ", &params)
    }

    /// What the parser returns.
    pub fn result_type(&self) -> (text: String)
        requires
            self.wf(),
        ensures
            text@ == self.input.result_text(),
    {
        let types = &self.input.grammar.types;
        let value = types.text(types.nonterminal_type(self.input.start_symbol));
        let error = types.parse_error_type();
        "Result<".to_owned().concat(value).concat(", ").concat(error).concat(">")
    }

    /// A symbol between two locations.
    pub fn spanned_symbol_type(&self) -> (text: String)
        requires
            self.wf(),
        ensures
            text@ == self.input.spanned_symbol(),
    {
        let p = self.prefix();
        let loc = self.input.grammar.types.terminal_loc_type();
        let parameter_list = join_text(", ", &self.custom.symbol_type_params);
        let parameters = parameter_list.as_str();
        "(".to_owned().concat(loc).concat(", ").concat(p).concat("Symbol<").concat(parameters)
            .concat(">, ").concat(loc).concat(")")
    }

    /// The parse stack.
    pub fn stack_type(&self) -> (text: String)
        requires
            self.wf(),
        ensures
            text@ == self.input.stack_type(),
    {
        let p = self.prefix();
        let symbol_type = self.spanned_symbol_type();
        let symbol = symbol_type.as_str();
        let type_args = self.parser_type_args();
        let args = type_args.as_str();
        "alloc::vec::Vec<(".to_owned().concat(symbol).concat(", ").concat(p).concat("Goto<")
            .concat(args).concat(">)>")
    }

    /// A token between two locations.
    pub fn triple_type(&self) -> (text: String)
        requires
            self.wf(),
        ensures
            text@ == self.input.grammar.types.triple(),
    {
        self.input.grammar.types.triple_type()
    }

    /// A type that mentions every type parameter.
    pub fn phantom_data_type(&self) -> (text: String)
        ensures
            text@ == self.input.phantom_type(),
    {
        let grammar = self.input.grammar;
        let mut list: Vec<String> = Vec::new();
        let mut i: usize = 0;
        while i < grammar.type_parameters.len()
            invariant
                grammar == self.input.grammar,
                i <= grammar.type_parameters.len(),
                list.len() == i,
                forall|k: int| 0 <= k < i ==> (#[trigger] list@[k])@ == self.input.phantom_types()[k],
            decreases grammar.type_parameters.len() - i,
        {
            let member = match &grammar.type_parameters[i] {
                TypeParameter::Lifetime(name) => "&".to_owned().concat(name.as_str()).concat(" ()"),
                TypeParameter::Id(name) => name.clone(),
            };
            list.push(member);
            i += 1;
        }
        assert(views(list@) =~= self.input.phantom_types());
        let member_list = join_text(", ", &list);
        let members = member_list.as_str();
        "core::marker::PhantomData<(".to_owned().concat(members).concat(")>")
    }

    /// A value of the type that mentions every type parameter.
    pub fn phantom_data_expr(&self) -> (text: String)
        ensures
            text@ == self.input.phantom_expr(),
    {
        let grammar = self.input.grammar;
        let mut list: Vec<String> = Vec::new();
        let mut i: usize = 0;
        while i < grammar.type_parameters.len()
            invariant
                grammar == self.input.grammar,
                i <= grammar.type_parameters.len(),
                list.len() == i,
                forall|k: int| 0 <= k < i ==> (#[trigger] list@[k])@ == self.input.phantom_exprs()[k],
            decreases grammar.type_parameters.len() - i,
        {
            let member = match &grammar.type_parameters[i] {
                TypeParameter::Lifetime(_) => "&()".to_owned(),
                TypeParameter::Id(name) => name.clone(),
            };
            list.push(member);
            i += 1;
        }
        assert(views(list@) =~= self.input.phantom_exprs());
        let member_list = join_text(", ", &list);
        let members = member_list.as_str();
        "core::marker::PhantomData::<(".to_owned().concat(members).concat(")>")
    }

    /// The call of the function `name`, in tail position.
    pub fn transition(&self, name: &str) -> (text: String)
        ensures
            text@ == self.input.transition(name@),
    {
        let p = self.prefix();
        let user_refs = self.input.grammar.user_parameter_refs();
        let refs = user_refs.as_str();
        p.to_owned().concat("transition!(").concat(name).concat("(").concat(refs).concat(p)
            .concat("parser))")
    }

    /// The name of a state's function.
    pub fn state_name(&self, state: StateIndex) -> (name: String)
        ensures
            name@ == self.input.state_name(state.0 as nat),
    {
        self.prefix().to_owned().concat("state").concat(decimal_text(state.0).as_str())
    }

    /// The name of a state's goto function.
    pub fn goto_name(&self, state: StateIndex) -> (name: String)
        ensures
            name@ == self.input.goto_name(state.0 as nat),
    {
        self.prefix().to_owned().concat("goto").concat(decimal_text(state.0).as_str())
    }

    /// The name of the function that reduces a production.
    pub fn reduce_name(&self, production: &Production) -> (name: String)
        requires
            self.wf(),
            self.input.grammar.productions().contains(production@),
        ensures
            name@ == self.input.reduce_name(production@),
    {
        let index: usize = self.reduce_index(production);
        self.prefix().to_owned().concat("reduce").concat(decimal_text(index).as_str())
    }

    /// The name of the function that calls a production's action code.
    pub fn action_name(&self, production: &Production) -> (name: String)
        requires
            self.wf(),
            self.input.grammar.productions().contains(production@),
        ensures
            name@ == self.input.action_name(production@),
    {
        let index: usize = self.reduce_index(production);
        self.prefix().to_owned().concat("call_action").concat(decimal_text(index).as_str())
    }

    /// A production, as it is shown in comments.
    pub fn production_text(&self, production: &Production) -> (text: String)
        requires
            self.input.grammar.resolves(production@),
        ensures
            text@ == self.input.production_text(production@),
    {
        let grammar = self.input.grammar;
        let mut names: Vec<String> = Vec::new();
        let mut i: usize = 0;
        while i < production.symbols.len()
            invariant
                grammar == self.input.grammar,
                grammar.resolves(production@),
                i <= production.symbols.len(),
                names.len() == i,
                forall|k: int|
                    0 <= k < i ==> (#[trigger] names@[k])@ == grammar.name_of(
                        production.symbols@[k],
                    ),
            decreases production.symbols.len() - i,
        {
            assert(grammar.has_symbol(production@.symbols[i as int]));
            names.push(grammar.symbol_name(production.symbols[i]).to_owned());
            i += 1;
        }
        assert(views(names@) =~= Seq::new(
            production@.symbols.len(),
            |i: int| self.input.grammar.name_of(production@.symbols[i]),
        ));
        let nonterminal = grammar.symbol_name(Symbol::Nonterminal(production.nonterminal));
        let symbol_names = join_text(", ", &names);
        let symbols = symbol_names.as_str();
        let action_index = decimal_text(production.action.0);
        let action = action_index.as_str();
        nonterminal.to_owned().concat(" = ").concat(symbols).concat(" => ActionFn(")
            .concat(action).concat(");")
    }
}

impl<'a, 'grammar> Input<'a, 'grammar> {
    /// The position of a symbol among all of them.
    pub open spec fn position_of(self, symbol: Symbol) -> int {
        match symbol {
            Symbol::Terminal(t) => t.0 as int,
            Symbol::Nonterminal(n) => self.grammar.terminals@.len() + n.0,
        }
    }

    pub proof fn lemma_last_index(self, production: ProductionView, i: int)
        requires
            self.is_last_index(production, i),
        ensures
            self.reduce_index(production) == i,
    {
        let j = self.reduce_index(production);
        assert(self.is_last_index(production, j));
        let productions = self.grammar.productions();
        assert(productions[j] == production);
        assert(productions[i] == production);
    }
}

} // verus!
