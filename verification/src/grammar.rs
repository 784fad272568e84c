//! The grammar that a parser is generated from.
//!
//! Names and types are interned: a handle is the position of the name or type
//! in the grammar's table of them. What a table lists first is written first, and
//! comes before the rest.
use crate::sequences::{increasing, lemma_pick};
use crate::text::{join, join_text, views, Line};
use vstd::prelude::*;

verus! {

/// A nonterminal, as its position in [`Grammar::nonterminals`].
#[derive(Clone, Copy, PartialEq, Eq, Structural, Debug)]
pub struct NonterminalString(pub usize);

/// A terminal, as its position in [`Grammar::terminals`].
#[derive(Clone, Copy, PartialEq, Eq, Structural, Debug)]
pub struct TerminalString(pub usize);

/// A type, as its position in [`Types::all`].
#[derive(Clone, Copy, PartialEq, Eq, Structural, Debug)]
pub struct TypeRepr(pub usize);

/// The action code of a production, as its position in [`Grammar::fallible`].
#[derive(Clone, Copy, PartialEq, Eq, Structural, Debug)]
pub struct ActionFn(pub usize);

/// Where in the grammar's source a production stands.
#[derive(Clone, Copy, PartialEq, Eq, Structural, Debug)]
pub struct Span(pub usize, pub usize);

/// A symbol of a production.
#[derive(Clone, Copy, PartialEq, Eq, Structural, Debug)]
pub enum Symbol {
    Nonterminal(NonterminalString),
    Terminal(TerminalString),
}

/// A production `nonterminal = symbols`.
pub struct Production {
    pub nonterminal: NonterminalString,
    pub symbols: Vec<Symbol>,
    pub action: ActionFn,
    pub span: Span,
}

/// What a production is made of.
#[verifier::ext_equal]
pub struct ProductionView {
    pub nonterminal: NonterminalString,
    pub symbols: Seq<Symbol>,
    pub action: ActionFn,
    pub span: Span,
}

impl View for Production {
    type V = ProductionView;

    open spec fn view(&self) -> ProductionView {
        ProductionView {
            nonterminal: self.nonterminal,
            symbols: self.symbols@,
            action: self.action,
            span: self.span,
        }
    }
}

/// The order of symbols: nonterminals before terminals.
pub open spec fn symbol_precedes(a: Symbol, b: Symbol) -> bool {
    match (a, b) {
        (Symbol::Nonterminal(m), Symbol::Nonterminal(n)) => m.0 < n.0,
        (Symbol::Nonterminal(_), Symbol::Terminal(_)) => true,
        (Symbol::Terminal(_), Symbol::Nonterminal(_)) => false,
        (Symbol::Terminal(s), Symbol::Terminal(t)) => s.0 < t.0,
    }
}

/// The lexicographic order of symbol lists, from position `i` on.
pub open spec fn symbols_precede(a: Seq<Symbol>, b: Seq<Symbol>, i: nat) -> bool
    decreases b.len() - i,
{
    if i >= b.len() {
        false
    } else if i >= a.len() {
        true
    } else {
        ||| symbol_precedes(a[i as int], b[i as int])
        ||| a[i as int] == b[i as int] && symbols_precede(a, b, i + 1)
    }
}

impl ProductionView {
    /// The order of productions: by nonterminal, then symbols, then action,
    /// then span.
    pub open spec fn precedes(self, other: ProductionView) -> bool {
        if self.nonterminal != other.nonterminal {
            self.nonterminal.0 < other.nonterminal.0
        } else if self.symbols != other.symbols {
            symbols_precede(self.symbols, other.symbols, 0)
        } else if self.action != other.action {
            self.action.0 < other.action.0
        } else if self.span.0 != other.span.0 {
            self.span.0 < other.span.0
        } else {
            self.span.1 < other.span.1
        }
    }
}

proof fn lemma_symbols_irreflexive(a: Seq<Symbol>, i: nat)
    ensures
        !symbols_precede(a, a, i),
    decreases a.len() - i,
{
    if i < a.len() {
        lemma_symbols_irreflexive(a, i + 1);
    }
}

proof fn lemma_symbols_transitive(a: Seq<Symbol>, b: Seq<Symbol>, c: Seq<Symbol>, i: nat)
    requires
        symbols_precede(a, b, i),
        symbols_precede(b, c, i),
    ensures
        symbols_precede(a, c, i),
    decreases c.len() - i,
{
    if i < a.len() && i < b.len() && i < c.len() && a[i as int] == b[i as int] && b[i as int]
        == c[i as int] {
        lemma_symbols_transitive(a, b, c, i + 1);
    }
}

proof fn lemma_symbols_total(a: Seq<Symbol>, b: Seq<Symbol>, i: nat)
    requires
        i <= a.len(),
        i <= b.len(),
        a != b,
        forall|j: int| 0 <= j < i ==> a[j] == b[j],
    ensures
        symbols_precede(a, b, i) || symbols_precede(b, a, i),
    decreases a.len() - i,
{
    if i == a.len() && i == b.len() {
        assert(a =~= b);
    } else if i < a.len() && i < b.len() && a[i as int] == b[i as int] {
        lemma_symbols_total(a, b, i + 1);
    }
}

/// Two productions are the same if and only if all their parts are.
pub proof fn law_production_views(a: Production, b: Production)
    ensures
        a@.nonterminal == a.nonterminal,
        a@.symbols == a.symbols@,
        a@.action == a.action,
        a@.span == a.span,
        a@ == b@ <==> a.nonterminal == b.nonterminal && a.symbols@ == b.symbols@ && a.action
            == b.action && a.span == b.span,
{
}

/// No production comes before itself.
pub proof fn law_order_is_irreflexive(a: ProductionView)
    ensures
        !a.precedes(a),
{
    lemma_symbols_irreflexive(a.symbols, 0);
}

/// A production that comes before another one comes before all that come after
/// that one.
pub proof fn law_order_is_transitive(a: ProductionView, b: ProductionView, c: ProductionView)
    requires
        a.precedes(b),
        b.precedes(c),
    ensures
        a.precedes(c),
{
    if a.nonterminal == b.nonterminal && b.nonterminal == c.nonterminal {
        if a.symbols != b.symbols && b.symbols != c.symbols {
            lemma_symbols_transitive(a.symbols, b.symbols, c.symbols, 0);
            lemma_symbols_irreflexive(a.symbols, 0);
        }
    }
}

/// Of two different productions one comes before the other.
pub proof fn law_order_is_total(a: ProductionView, b: ProductionView)
    requires
        a != b,
    ensures
        a.precedes(b) || b.precedes(a),
{
    if a.nonterminal == b.nonterminal && a.symbols != b.symbols {
        lemma_symbols_total(a.symbols, b.symbols, 0);
    }
}

proof fn lemma_symbols_first_difference(a: Seq<Symbol>, b: Seq<Symbol>, at: int, i: nat)
    requires
        i <= at <= a.len(),
        at < b.len(),
        forall|j: int| 0 <= j < at ==> #[trigger] a[j] == b[j],
        at == a.len() || symbol_precedes(a[at], b[at]),
    ensures
        symbols_precede(a, b, i),
    decreases at - i,
{
    if i < at {
        lemma_symbols_first_difference(a, b, at, i + 1);
    }
}

/// Productions are ordered by nonterminal. Those of one nonterminal are ordered by
/// their first different symbol, a list before what it begins; nonterminals stand
/// before terminals. Those with the same symbols are ordered by action, and then by
/// span.
pub proof fn law_order_is_lexicographic(a: ProductionView, b: ProductionView, at: int)
    ensures
        a.nonterminal.0 < b.nonterminal.0 ==> a.precedes(b),
        ({
            &&& a.nonterminal == b.nonterminal
            &&& 0 <= at <= a.symbols.len()
            &&& at < b.symbols.len()
            &&& forall|j: int| 0 <= j < at ==> #[trigger] a.symbols[j] == b.symbols[j]
            &&& at == a.symbols.len() || match (a.symbols[at], b.symbols[at]) {
                (Symbol::Nonterminal(m), Symbol::Nonterminal(n)) => m.0 < n.0,
                (Symbol::Terminal(m), Symbol::Terminal(n)) => m.0 < n.0,
                (Symbol::Nonterminal(_), Symbol::Terminal(_)) => true,
                (Symbol::Terminal(_), Symbol::Nonterminal(_)) => false,
            }
        }) ==> a.precedes(b),
        a.nonterminal == b.nonterminal && a.symbols == b.symbols && a.action.0 < b.action.0
            ==> a.precedes(b),
        a.nonterminal == b.nonterminal && a.symbols == b.symbols && a.action == b.action && (
        a.span.0 < b.span.0 || a.span.0 == b.span.0 && a.span.1 < b.span.1) ==> a.precedes(b),
{
    if a.nonterminal == b.nonterminal && 0 <= at <= a.symbols.len() && at < b.symbols.len() && (
    forall|j: int| 0 <= j < at ==> #[trigger] a.symbols[j] == b.symbols[j]) && (at
        == a.symbols.len() || symbol_precedes(a.symbols[at], b.symbols[at])) {
        lemma_symbols_first_difference(a.symbols, b.symbols, at, 0);
        if at < a.symbols.len() {
            assert(a.symbols[at] != b.symbols[at]);
        }
        assert(a.symbols != b.symbols);
    }
}

fn symbol_is_before(a: Symbol, b: Symbol) -> (before: bool)
    ensures
        before == symbol_precedes(a, b),
{
    match (a, b) {
        (Symbol::Nonterminal(m), Symbol::Nonterminal(n)) => m.0 < n.0,
        (Symbol::Nonterminal(_), Symbol::Terminal(_)) => true,
        (Symbol::Terminal(_), Symbol::Nonterminal(_)) => false,
        (Symbol::Terminal(s), Symbol::Terminal(t)) => s.0 < t.0,
    }
}

fn symbols_are_before(a: &Vec<Symbol>, b: &Vec<Symbol>) -> (before: bool)
    ensures
        before == symbols_precede(a@, b@, 0),
{
    let mut i: usize = 0;
    while i < a.len() && i < b.len()
        invariant
            i <= a.len(),
            i <= b.len(),
            symbols_precede(a@, b@, 0) == symbols_precede(a@, b@, i as nat),
        decreases a.len() - i,
    {
        if symbol_is_before(a[i], b[i]) {
            return true;
        }
        if a[i] != b[i] {
            return false;
        }
        i += 1;
    }
    i < b.len()
}

fn symbols_are_same(a: &Vec<Symbol>, b: &Vec<Symbol>) -> (same: bool)
    ensures
        same == (a@ == b@),
{
    if a.len() != b.len() {
        return false;
    }
    let mut i: usize = 0;
    while i < a.len()
        invariant
            i <= a.len(),
            a.len() == b.len(),
            forall|j: int| 0 <= j < i ==> a@[j] == b@[j],
        decreases a.len() - i,
    {
        if a[i] != b[i] {
            return false;
        }
        i += 1;
    }
    assert(a@ =~= b@);
    true
}

impl Production {
    /// Whether the two productions are the same.
    pub fn is_same(&self, other: &Production) -> (same: bool)
        ensures
            same == (self@ == other@),
    {
        self.nonterminal == other.nonterminal && self.action == other.action && self.span
            == other.span && symbols_are_same(&self.symbols, &other.symbols)
    }

    /// Whether this production comes before the other one.
    pub fn is_before(&self, other: &Production) -> (before: bool)
        ensures
            before == self@.precedes(other@),
    {
        if self.nonterminal != other.nonterminal {
            self.nonterminal.0 < other.nonterminal.0
        } else if !symbols_are_same(&self.symbols, &other.symbols) {
            symbols_are_before(&self.symbols, &other.symbols)
        } else if self.action != other.action {
            self.action.0 < other.action.0
        } else if self.span.0 != other.span.0 {
            self.span.0 < other.span.0
        } else {
            self.span.1 < other.span.1
        }
    }
}

/// A pattern for a token, with holes where the token's data is chosen.
///
/// The pieces are the text around the holes, so there is one more piece than
/// there are holes.
pub struct Pattern {
    pub first: String,
    pub rest: Vec<String>,
}

impl Pattern {
    /// The pattern up to the piece behind its last filled hole, with `fill[i]` in
    /// hole `i`.
    pub open spec fn filled(self, fill: Seq<Line>) -> Line
        recommends
            fill.len() <= self.rest.len(),
        decreases fill.len(),
    {
        if fill.len() == 0 {
            self.first@
        } else {
            self.filled(fill.drop_last()) + fill.last() + self.rest@[fill.len() - 1]@
        }
    }

    /// A filled pattern is its first piece, and then what is in each hole with the
    /// piece behind the hole.
    pub proof fn law_filled(self, fill: Seq<Line>)
        requires
            fill.len() <= self.rest@.len(),
        ensures
            self.filled(fill) == self.first@ + Seq::new(
                fill.len(),
                |i: int| fill[i] + self.rest@[i]@,
            ).flatten_alt(),
        decreases fill.len(),
    {
        let parts = Seq::new(fill.len(), |i: int| fill[i] + self.rest@[i]@);
        if fill.len() == 0 {
            assert(self.first@ + parts.flatten_alt() =~= self.first@);
        } else {
            let before = fill.drop_last();
            self.law_filled(before);
            assert(parts.drop_last() =~= Seq::new(
                before.len(),
                |i: int| before[i] + self.rest@[i]@,
            ));
            assert(self.first@ + parts.drop_last().flatten_alt() + fill.last()
                + self.rest@[fill.len() - 1]@ =~= self.first@ + (parts.drop_last().flatten_alt()
                + parts.last()));
        }
    }

    /// The pattern with `fill[i]` in hole `i`.
    pub fn fill(&self, fill: &Vec<String>) -> (text: String)
        requires
            fill.len() == self.rest.len(),
        ensures
            text@ == self.filled(views(fill@)),
    {
        let mut text = self.first.clone();
        let mut i: usize = 0;
        assert(views(fill@).take(0) =~= seq![]);
        while i < fill.len()
            invariant
                i <= fill.len(),
                fill.len() == self.rest.len(),
                text@ == self.filled(views(fill@).take(i as int)),
            decreases fill.len() - i,
        {
            proof {
                let next = views(fill@).take(i + 1);
                assert(next.drop_last() =~= views(fill@).take(i as int));
                assert(next.last() == fill@[i as int]@);
            }
            text = text.concat(fill[i].as_str()).concat(self.rest[i].as_str());
            i += 1;
        }
        assert(views(fill@).take(i as int) =~= views(fill@));
        text
    }
}

/// A terminal: its name, and the pattern that its tokens match.
pub struct TerminalData {
    pub name: String,
    pub pattern: Pattern,
}

/// A nonterminal: its name and its productions.
pub struct NonterminalData {
    pub name: String,
    pub productions: Vec<Production>,
}

/// A parameter of the grammar's types.
pub enum TypeParameter {
    Lifetime(String),
    Id(String),
}

impl TypeParameter {
    pub open spec fn name(self) -> Line {
        match self {
            TypeParameter::Lifetime(name) => name@,
            TypeParameter::Id(name) => name@,
        }
    }

    /// The parameter as it is written in a parameter list.
    pub fn text(&self) -> (text: &str)
        ensures
            text@ == self.name(),
    {
        match self {
            TypeParameter::Lifetime(name) => name.as_str(),
            TypeParameter::Id(name) => name.as_str(),
        }
    }
}

/// A where clause of the grammar.
pub struct WhereClause {
    pub text: String,
    /// what the clause refers to, as positions in [`Grammar::type_parameters`];
    /// a position beyond that list is something that is no parameter
    pub referenced: Vec<usize>,
}

/// A parameter of the parser's functions.
pub struct Parameter {
    pub name: String,
    pub ty: TypeRepr,
}

/// A type of the grammar.
pub struct TypeData {
    pub text: String,
    /// what the type refers to, as positions in [`Grammar::type_parameters`]
    pub referenced: Vec<usize>,
}

/// The types of a grammar's symbols.
pub struct Types {
    /// the types that the grammar mentions
    pub all: Vec<TypeData>,
    pub terminal_token_type: TypeRepr,
    pub terminal_loc_type: TypeRepr,
    pub parse_error_type: TypeRepr,
    /// by terminal; `None` stands for the type of a token
    pub terminal_types: Vec<Option<TypeRepr>>,
    /// by nonterminal
    pub nonterminal_types: Vec<TypeRepr>,
}

impl Types {
    pub open spec fn knows(self, ty: TypeRepr) -> bool {
        ty.0 < self.all@.len()
    }

    pub open spec fn wf(self) -> bool {
        &&& self.knows(self.terminal_token_type)
        &&& self.knows(self.terminal_loc_type)
        &&& self.knows(self.parse_error_type)
        &&& forall|t: int|
            0 <= t < self.terminal_types@.len() ==> (#[trigger] self.terminal_types@[t] matches Some(
                ty,
            ) ==> self.knows(ty))
        &&& forall|n: int|
            0 <= n < self.nonterminal_types@.len() ==> self.knows(
                #[trigger] self.nonterminal_types@[n],
            )
    }

    pub open spec fn text_of(self, ty: TypeRepr) -> Line {
        self.all@[ty.0 as int].text@
    }

    /// The type of a symbol's value.
    pub open spec fn type_of(self, symbol: Symbol) -> TypeRepr {
        match symbol {
            Symbol::Terminal(t) => match self.terminal_types@[t.0 as int] {
                Some(ty) => ty,
                None => self.terminal_token_type,
            },
            Symbol::Nonterminal(n) => self.nonterminal_types@[n.0 as int],
        }
    }

    pub open spec fn loc(self) -> Line {
        self.text_of(self.terminal_loc_type)
    }

    pub open spec fn error(self) -> Line {
        self.text_of(self.parse_error_type)
    }

    /// A value of type `ty` between two locations.
    pub open spec fn spanned(self, ty: TypeRepr) -> Line {
        "("@ + self.loc() + ", "@ + self.text_of(ty) + ", "@ + self.loc() + ")"@
    }

    /// A token between two locations.
    pub open spec fn triple(self) -> Line {
        self.spanned(self.terminal_token_type)
    }

    /// A terminal without a type of its own has the type of tokens. Spanned values
    /// stand between two locations.
    pub proof fn law_types(self, t: TerminalString, n: NonterminalString, ty: TypeRepr)
        ensures
            self.terminal_types@[t.0 as int] is Some ==> Some(self.type_of(Symbol::Terminal(t)))
                == self.terminal_types@[t.0 as int],
            self.terminal_types@[t.0 as int] is None ==> self.type_of(Symbol::Terminal(t))
                == self.terminal_token_type,
            self.type_of(Symbol::Nonterminal(n)) == self.nonterminal_types@[n.0 as int],
            self.text_of(ty) == self.all@[ty.0 as int].text@,
            self.loc() == self.all@[self.terminal_loc_type.0 as int].text@,
            self.error() == self.all@[self.parse_error_type.0 as int].text@,
            self.spanned(ty) == "("@ + self.all@[self.terminal_loc_type.0 as int].text@ + ", "@
                + self.all@[ty.0 as int].text@ + ", "@
                + self.all@[self.terminal_loc_type.0 as int].text@ + ")"@,
            self.triple() == "("@ + self.all@[self.terminal_loc_type.0 as int].text@ + ", "@
                + self.all@[self.terminal_token_type.0 as int].text@ + ", "@
                + self.all@[self.terminal_loc_type.0 as int].text@ + ")"@,
    {
    }

    pub fn text(&self, ty: TypeRepr) -> (text: &str)
        requires
            self.knows(ty),
        ensures
            text@ == self.text_of(ty),
    {
        self.all[ty.0].text.as_str()
    }

    pub fn terminal_type(&self, t: TerminalString) -> (ty: TypeRepr)
        requires
            t.0 < self.terminal_types@.len(),
        ensures
            ty == self.type_of(Symbol::Terminal(t)),
    {
        match self.terminal_types[t.0] {
            Some(ty) => ty,
            None => self.terminal_token_type,
        }
    }

    pub fn nonterminal_type(&self, n: NonterminalString) -> (ty: TypeRepr)
        requires
            n.0 < self.nonterminal_types@.len(),
        ensures
            ty == self.type_of(Symbol::Nonterminal(n)),
    {
        self.nonterminal_types[n.0]
    }

    pub fn terminal_loc_type(&self) -> (text: &str)
        requires
            self.wf(),
        ensures
            text@ == self.loc(),
    {
        self.text(self.terminal_loc_type)
    }

    pub fn parse_error_type(&self) -> (text: &str)
        requires
            self.wf(),
        ensures
            text@ == self.error(),
    {
        self.text(self.parse_error_type)
    }

    pub fn spanned_type(&self, ty: TypeRepr) -> (text: String)
        requires
            self.wf(),
            self.knows(ty),
        ensures
            text@ == self.spanned(ty),
    {
        let loc = self.terminal_loc_type();
        "(".to_owned().concat(loc).concat(", ").concat(self.text(ty)).concat(", ").concat(
            loc,
        ).concat(")")
    }

    pub fn triple_type(&self) -> (text: String)
        requires
            self.wf(),
        ensures
            text@ == self.triple(),
    {
        self.spanned_type(self.terminal_token_type)
    }
}

/// A grammar.
pub struct Grammar {
    /// begins every name that the generated code introduces
    pub prefix: String,
    pub type_parameters: Vec<TypeParameter>,
    pub where_clauses: Vec<WhereClause>,
    pub parameters: Vec<Parameter>,
    /// the terminals
    pub terminals: Vec<TerminalData>,
    /// the nonterminals
    pub nonterminals: Vec<NonterminalData>,
    /// by action: whether its code returns a `Result`
    pub fallible: Vec<bool>,
    pub types: Types,
}

/// What a list of productions is made of.
pub open spec fn production_views(productions: Seq<&Production>) -> Seq<ProductionView> {
    Seq::new(productions.len(), |i: int| productions[i]@)
}

impl Grammar {
    pub open spec fn has_terminal(self, t: TerminalString) -> bool {
        t.0 < self.terminals@.len()
    }

    pub open spec fn has_nonterminal(self, n: NonterminalString) -> bool {
        n.0 < self.nonterminals@.len()
    }

    pub open spec fn has_symbol(self, symbol: Symbol) -> bool {
        match symbol {
            Symbol::Terminal(t) => self.has_terminal(t),
            Symbol::Nonterminal(n) => self.has_nonterminal(n),
        }
    }

    /// Whether all that a production refers to is in the grammar.
    pub open spec fn resolves(self, production: ProductionView) -> bool {
        &&& self.has_nonterminal(production.nonterminal)
        &&& production.action.0 < self.fallible@.len()
        &&& forall|i: int|
            0 <= i < production.symbols.len() ==> self.has_symbol(#[trigger] production.symbols[i])
    }

    /// The productions of nonterminal `n`.
    pub open spec fn productions_of(self, n: int) -> Seq<ProductionView> {
        let productions = self.nonterminals@[n].productions@;
        Seq::new(productions.len(), |k: int| productions[k]@)
    }

    /// The productions of the first `n` nonterminals.
    pub open spec fn productions_to(self, n: nat) -> Seq<ProductionView>
        decreases n,
    {
        if n == 0 {
            seq![]
        } else {
            self.productions_to((n - 1) as nat) + self.productions_of(n - 1)
        }
    }

    /// All productions, by nonterminal.
    pub open spec fn productions(self) -> Seq<ProductionView> {
        self.productions_to(self.nonterminals@.len())
    }

    /// Every handle in the grammar refers to an entry of its table.
    pub open spec fn wf(self) -> bool {
        &&& self.types.wf()
        &&& self.types.terminal_types@.len() == self.terminals@.len()
        &&& self.types.nonterminal_types@.len() == self.nonterminals@.len()
        &&& forall|i: int|
            0 <= i < self.parameters@.len() ==> self.types.knows(
                (#[trigger] self.parameters@[i]).ty,
            )
        &&& forall|i: int|
            0 <= i < self.productions().len() ==> self.resolves(#[trigger] self.productions()[i])
    }

    /// The name of a symbol.
    pub open spec fn name_of(self, symbol: Symbol) -> Line {
        match symbol {
            Symbol::Terminal(t) => self.terminals@[t.0 as int].name@,
            Symbol::Nonterminal(n) => self.nonterminals@[n.0 as int].name@,
        }
    }

    /// The names of the first `n` parameters, as the first arguments of a call.
    pub open spec fn parameter_refs(self, n: nat) -> Line
        decreases n,
    {
        if n == 0 {
            seq![]
        } else {
            self.parameter_refs((n - 1) as nat) + self.parameters@[n - 1].name@ + ", "@
        }
    }

    /// The names of the parameters, as the first arguments of a call.
    pub open spec fn user_refs(self) -> Line {
        self.parameter_refs(self.parameters@.len())
    }

    /// The names of the type parameters.
    pub open spec fn type_parameter_names(self) -> Seq<Line> {
        Seq::new(self.type_parameters@.len(), |i: int| self.type_parameters@[i].name())
    }

    /// The where clauses.
    pub open spec fn where_clause_texts(self) -> Seq<Line> {
        Seq::new(self.where_clauses@.len(), |i: int| self.where_clauses@[i].text@)
    }

    /// The parameters, as they are declared.
    pub open spec fn parameter_decls(self) -> Seq<Line> {
        Seq::new(
            self.parameters@.len(),
            |i: int|
                self.parameters@[i].name@ + ": "@ + self.types.text_of(self.parameters@[i].ty),
        )
    }

    /// The types of the parameters.
    pub open spec fn parameter_types(self) -> Seq<Line> {
        Seq::new(
            self.parameters@.len(),
            |i: int| self.types.text_of(self.parameters@[i].ty),
        )
    }

    /// The names of those of the first `n` type parameters that are no lifetimes.
    pub open spec fn id_names(self, n: nat) -> Seq<Line>
        decreases n,
    {
        if n == 0 {
            seq![]
        } else {
            let before = self.id_names((n - 1) as nat);
            match self.type_parameters@[n - 1] {
                TypeParameter::Id(name) => before.push(name@),
                TypeParameter::Lifetime(_) => before,
            }
        }
    }

    /// The names of the type parameters that are no lifetimes.
    pub open spec fn type_arguments(self) -> Line {
        join(", "@, self.id_names(self.type_parameters@.len()))
    }

    /// The productions are those of each nonterminal, one nonterminal after the
    /// other.
    pub proof fn law_productions(self)
        ensures
            self.productions() == Seq::new(
                self.nonterminals@.len(),
                |n: int|
                    Seq::new(
                        self.nonterminals@[n].productions@.len(),
                        |k: int| self.nonterminals@[n].productions@[k]@,
                    ),
            ).flatten_alt(),
    {
        self.lemma_productions_to(self.nonterminals@.len());
    }

    proof fn lemma_productions_to(self, m: nat)
        ensures
            self.productions_to(m) == Seq::new(
                m,
                |n: int|
                    Seq::new(
                        self.nonterminals@[n].productions@.len(),
                        |k: int| self.nonterminals@[n].productions@[k]@,
                    ),
            ).flatten_alt(),
        decreases m,
    {
        let parts = Seq::new(
            m,
            |n: int|
                Seq::new(
                    self.nonterminals@[n].productions@.len(),
                    |k: int| self.nonterminals@[n].productions@[k]@,
                ),
        );
        if m > 0 {
            self.lemma_productions_to((m - 1) as nat);
            assert(parts.drop_last() =~= Seq::new(
                (m - 1) as nat,
                |n: int|
                    Seq::new(
                        self.nonterminals@[n].productions@.len(),
                        |k: int| self.nonterminals@[n].productions@[k]@,
                    ),
            ));
            assert(parts.last() =~= self.productions_of(m - 1));
        }
    }

    /// A symbol's name is that of its entry.
    pub proof fn law_names(self, t: TerminalString, n: NonterminalString)
        ensures
            self.name_of(Symbol::Terminal(t)) == self.terminals@[t.0 as int].name@,
            self.name_of(Symbol::Nonterminal(n)) == self.nonterminals@[n.0 as int].name@,
    {
    }

    /// Each type parameter is named in its place, and so is each where clause.
    pub proof fn law_type_parameters(self)
        ensures
            self.type_parameter_names().len() == self.type_parameters@.len(),
            forall|i: int|
                0 <= i < self.type_parameters@.len() ==> match self.type_parameters@[i] {
                    TypeParameter::Lifetime(name) => #[trigger] self.type_parameter_names()[i]
                        == name@,
                    TypeParameter::Id(name) => self.type_parameter_names()[i] == name@,
                },
            self.where_clause_texts().len() == self.where_clauses@.len(),
            forall|i: int|
                0 <= i < self.where_clauses@.len() ==> #[trigger] self.where_clause_texts()[i]
                    == self.where_clauses@[i].text@,
    {
    }

    /// The names of the parameters, before a last argument, are the arguments of a
    /// call.
    pub proof fn law_user_refs(self, last: Line)
        ensures
            self.user_refs() + last == join(
                ", "@,
                Seq::new(self.parameters@.len(), |i: int| self.parameters@[i].name@).push(last),
            ),
    {
        self.lemma_parameter_refs(self.parameters@.len(), last);
    }

    proof fn lemma_parameter_refs(self, n: nat, last: Line)
        ensures
            self.parameter_refs(n) + last == join(
                ", "@,
                Seq::new(n, |i: int| self.parameters@[i].name@).push(last),
            ),
        decreases n,
    {
        let names = Seq::new(n, |i: int| self.parameters@[i].name@);
        let all = names.push(last);
        assert(all.drop_last() =~= names);
        if n == 0 {
            assert(self.parameter_refs(0) + last =~= last);
        } else {
            let name = self.parameters@[n - 1].name@;
            self.lemma_parameter_refs((n - 1) as nat, name);
            assert(names =~= Seq::new((n - 1) as nat, |i: int| self.parameters@[i].name@).push(
                name,
            ));
        }
    }

    /// The type arguments of an action are the type parameters that are no
    /// lifetimes.
    pub proof fn law_type_arguments(self) -> (picked: Seq<int>)
        ensures
            increasing(picked),
            forall|i: int| #[trigger]
                picked.contains(i) <==> 0 <= i < self.type_parameters@.len()
                    && self.type_parameters@[i] is Id,
            self.type_arguments() == join(
                ", "@,
                Seq::new(
                    picked.len(),
                    |k: int|
                        match self.type_parameters@[picked[k]] {
                            TypeParameter::Lifetime(name) => name@,
                            TypeParameter::Id(name) => name@,
                        },
                ),
            ),
    {
        let picked = self.lemma_id_names(self.type_parameters@.len());
        assert(self.id_names(self.type_parameters@.len()) =~= Seq::new(
            picked.len(),
            |k: int|
                match self.type_parameters@[picked[k]] {
                    TypeParameter::Lifetime(name) => name@,
                    TypeParameter::Id(name) => name@,
                },
        ));
        picked
    }

    proof fn lemma_id_names(self, n: nat) -> (picked: Seq<int>)
        requires
            n <= self.type_parameters@.len(),
        ensures
            increasing(picked),
            forall|i: int| #[trigger]
                picked.contains(i) <==> 0 <= i < n && self.type_parameters@[i] is Id,
            self.id_names(n).len() == picked.len(),
            forall|k: int|
                0 <= k < picked.len() ==> #[trigger] self.id_names(n)[k]
                    == self.type_parameters@[picked[k]].name(),
        decreases n,
    {
        if n == 0 {
            Seq::empty()
        } else {
            let before = self.lemma_id_names((n - 1) as nat);
            let picked = lemma_pick(before, n - 1, self.type_parameters@[n - 1] is Id);
            let names = self.id_names((n - 1) as nat);
            assert forall|k: int| 0 <= k < picked.len() implies #[trigger] self.id_names(n)[k]
                == self.type_parameters@[picked[k]].name() by {
                if k < before.len() {
                    assert(names[k] == self.type_parameters@[before[k]].name());
                }
            }
            picked
        }
    }

    pub fn symbol_name(&self, symbol: Symbol) -> (name: &str)
        requires
            self.has_symbol(symbol),
        ensures
            name@ == self.name_of(symbol),
    {
        match symbol {
            Symbol::Terminal(t) => self.terminals[t.0].name.as_str(),
            Symbol::Nonterminal(n) => self.nonterminals[n.0].name.as_str(),
        }
    }

    /// All productions, by nonterminal.
    pub fn all_productions(&self) -> (productions: Vec<&Production>)
        ensures
            production_views(productions@) == self.productions(),
    {
        let mut productions: Vec<&Production> = Vec::new();
        let mut n: usize = 0;
        assert(production_views(productions@) =~= seq![]);
        while n < self.nonterminals.len()
            invariant
                n <= self.nonterminals.len(),
                production_views(productions@) == self.productions_to(n as nat),
            decreases self.nonterminals.len() - n,
        {
            let own = &self.nonterminals[n].productions;
            let mut k: usize = 0;
            assert(self.productions_of(n as int).take(0) =~= seq![]);
            assert(self.productions_to(n as nat) + seq![] =~= self.productions_to(n as nat));
            while k < own.len()
                invariant
                    n < self.nonterminals.len(),
                    own@ == self.nonterminals@[n as int].productions@,
                    k <= own.len(),
                    production_views(productions@) == self.productions_to(n as nat)
                        + self.productions_of(n as int).take(k as int),
                decreases own.len() - k,
            {
                let ghost before = productions@;
                productions.push(&own[k]);
                assert(production_views(productions@) =~= production_views(before).push(
                    own@[k as int]@,
                ));
                assert(self.productions_of(n as int).take(k + 1) =~= self.productions_of(
                    n as int,
                ).take(k as int).push(own@[k as int]@));
                k += 1;
            }
            assert(self.productions_of(n as int).take(k as int) =~= self.productions_of(n as int));
            n += 1;
        }
        productions
    }

    pub fn action_is_fallible(&self, action: ActionFn) -> (fallible: bool)
        requires
            action.0 < self.fallible@.len(),
        ensures
            fallible == self.fallible@[action.0 as int],
    {
        self.fallible[action.0]
    }

    /// The names of the parameters, as the first arguments of a call.
    pub fn user_parameter_refs(&self) -> (text: String)
        ensures
            text@ == self.user_refs(),
    {
        let mut text = String::new();
        let mut i: usize = 0;
        while i < self.parameters.len()
            invariant
                i <= self.parameters.len(),
                text@ == self.parameter_refs(i as nat),
            decreases self.parameters.len() - i,
        {
            text = text.concat(self.parameters[i].name.as_str()).concat(", ");
            i += 1;
        }
        text
    }

    /// The type parameters that are no lifetimes, as the arguments of a call.
    pub fn non_lifetime_type_parameters(&self) -> (text: String)
        ensures
            text@ == self.type_arguments(),
    {
        let mut names: Vec<String> = Vec::new();
        let mut i: usize = 0;
        assert(views(names@) =~= seq![]);
        while i < self.type_parameters.len()
            invariant
                i <= self.type_parameters.len(),
                views(names@) == self.id_names(i as nat),
            decreases self.type_parameters.len() - i,
        {
            let ghost before = names@;
            if let TypeParameter::Id(name) = &self.type_parameters[i] {
                names.push(name.clone());
                assert(views(names@) =~= views(before).push(name@));
            }
            i += 1;
        }
        join_text(", ", &names)
    }

    /// The names of the type parameters.
    pub fn type_parameter_list(&self) -> (names: Vec<String>)
        ensures
            views(names@) == self.type_parameter_names(),
    {
        let mut names: Vec<String> = Vec::new();
        let mut i: usize = 0;
        while i < self.type_parameters.len()
            invariant
                i <= self.type_parameters.len(),
                names.len() == i,
                forall|k: int|
                    0 <= k < i ==> (#[trigger] names@[k])@ == self.type_parameters@[k].name(),
            decreases self.type_parameters.len() - i,
        {
            names.push(self.type_parameters[i].text().to_owned());
            i += 1;
        }
        assert(views(names@) =~= self.type_parameter_names());
        names
    }

    /// The where clauses.
    pub fn where_clause_list(&self) -> (clauses: Vec<String>)
        ensures
            views(clauses@) == self.where_clause_texts(),
    {
        let mut clauses: Vec<String> = Vec::new();
        let mut i: usize = 0;
        while i < self.where_clauses.len()
            invariant
                i <= self.where_clauses.len(),
                clauses.len() == i,
                forall|k: int|
                    0 <= k < i ==> (#[trigger] clauses@[k])@ == self.where_clauses@[k].text@,
            decreases self.where_clauses.len() - i,
        {
            clauses.push(self.where_clauses[i].text.clone());
            i += 1;
        }
        assert(views(clauses@) =~= self.where_clause_texts());
        clauses
    }

    /// The parameters, as they are declared.
    pub fn parameter_list(&self) -> (decls: Vec<String>)
        requires
            self.wf(),
        ensures
            views(decls@) == self.parameter_decls(),
    {
        let mut decls: Vec<String> = Vec::new();
        let mut i: usize = 0;
        while i < self.parameters.len()
            invariant
                self.wf(),
                i <= self.parameters.len(),
                decls.len() == i,
                forall|k: int|
                    0 <= k < i ==> (#[trigger] decls@[k])@ == self.parameters@[k].name@ + ": "@
                        + self.types.text_of(self.parameters@[k].ty),
            decreases self.parameters.len() - i,
        {
            let parameter = &self.parameters[i];
            decls.push(parameter.name.clone().concat(": ").concat(self.types.text(parameter.ty)));
            i += 1;
        }
        assert(views(decls@) =~= self.parameter_decls());
        decls
    }

    /// The types of the parameters.
    pub fn parameter_type_list(&self) -> (types: Vec<String>)
        requires
            self.wf(),
        ensures
            views(types@) == self.parameter_types(),
    {
        let mut types: Vec<String> = Vec::new();
        let mut i: usize = 0;
        while i < self.parameters.len()
            invariant
                self.wf(),
                i <= self.parameters.len(),
                types.len() == i,
                forall|k: int|
                    0 <= k < i ==> (#[trigger] types@[k])@ == self.types.text_of(
                        self.parameters@[k].ty,
                    ),
            decreases self.parameters.len() - i,
        {
            types.push(self.types.text(self.parameters[i].ty).to_owned());
            i += 1;
        }
        assert(views(types@) =~= self.parameter_types());
        types
    }
}

} // verus!
