//! How the generated module is built: every function that its code calls is in
//! it, the parser functions share one signature, and they pass control on in
//! tail position.
use crate::codegen::input::Input;
use crate::grammar::{ProductionView, Symbol, TypeRepr};
use crate::rust_write::fn_header;
use crate::text::{views, Line};
use vstd::prelude::*;

verus! {

pub open spec fn occurs_at(block: Seq<Line>, text: Seq<Line>, at: int) -> bool {
    &&& 0 <= at
    &&& at + block.len() <= text.len()
    &&& text.subrange(at, at + block.len()) == block
}

/// The lines of `block` stand in `text`, one behind the other.
pub open spec fn occurs(block: Seq<Line>, text: Seq<Line>) -> bool {
    exists|at: int| occurs_at(block, text, at)
}

pub proof fn lemma_occurs_in_itself(block: Seq<Line>)
    ensures
        occurs(block, block),
{
    assert(block.subrange(0, block.len() as int) =~= block);
    assert(occurs_at(block, block, 0));
}

pub proof fn lemma_occurs_in_first(block: Seq<Line>, first: Seq<Line>, second: Seq<Line>)
    requires
        occurs(block, first),
    ensures
        occurs(block, first + second),
{
    let at = choose|at: int| occurs_at(block, first, at);
    assert((first + second).subrange(at, at + block.len()) =~= first.subrange(
        at,
        at + block.len(),
    ));
    assert(occurs_at(block, first + second, at));
}

pub proof fn lemma_occurs_in_second(block: Seq<Line>, first: Seq<Line>, second: Seq<Line>)
    requires
        occurs(block, second),
    ensures
        occurs(block, first + second),
{
    let at = choose|at: int| occurs_at(block, second, at);
    let there = first.len() + at;
    assert((first + second).subrange(there, there + block.len()) =~= second.subrange(
        at,
        at + block.len(),
    ));
    assert(occurs_at(block, first + second, there));
}

/// A block that occurs in a part occurs in the whole.
pub proof fn lemma_occurs_transitive(block: Seq<Line>, part: Seq<Line>, text: Seq<Line>)
    requires
        occurs(block, part),
        occurs(part, text),
    ensures
        occurs(block, text),
{
    let inner = choose|at: int| occurs_at(block, part, at);
    let outer = choose|at: int| occurs_at(part, text, at);
    let at = outer + inner;
    assert(text.subrange(at, at + block.len()) =~= part.subrange(inner, inner + block.len()));
    assert(occurs_at(block, text, at));
}

impl<'a, 'grammar> Input<'a, 'grammar> {
    proof fn lemma_in_declarations(self, block: Seq<Line>)
        requires
            occurs(block, self.declarations()),
        ensures
            occurs(block, self.module()),
    {
        let open = views(self.frame.module_open@);
        lemma_occurs_in_second(block, open, self.declarations());
        lemma_occurs_in_first(block, open + self.declarations(), self.parser_fns());
        lemma_occurs_in_first(
            block,
            open + self.declarations() + self.parser_fns(),
            views(self.frame.module_close@),
        );
    }

    proof fn lemma_in_parser_fns(self, block: Seq<Line>)
        requires
            occurs(block, self.parser_fns()),
        ensures
            occurs(block, self.module()),
    {
        let open = views(self.frame.module_open@);
        lemma_occurs_in_second(block, open + self.declarations(), self.parser_fns());
        lemma_occurs_in_first(
            block,
            open + self.declarations() + self.parser_fns(),
            views(self.frame.module_close@),
        );
    }

    /// The module is, between the lines of the frame: the transition macro, the
    /// types, the functions that help, the functions that pop, those that call the
    /// action code of each production, and the entry point in its own frame; then
    /// the functions of each state, the goto functions of each state, and the
    /// functions of the productions.
    pub proof fn law_module(self)
        ensures
            ({
                let frame = self.frame;
                let productions = self.grammar.productions();
                let n = self.states@.len();
                self.module() == Seq::new(
                    frame.module_open@.len(),
                    |i: int| frame.module_open@[i]@,
                ) + (self.transition_macro() + self.value_type_defn() + self.goto_type_defn()
                    + self.parser_type_defn() + self.helper_fns() + self.pop_fns(
                    self.grammar.types.all@.len(),
                ) + Seq::new(
                    productions.len(),
                    |i: int| self.action_shim(productions[i]),
                ).flatten_alt() + (Seq::new(
                    frame.parser_fn_open@.len(),
                    |i: int| frame.parser_fn_open@[i]@,
                ) + Seq::new(frame.tokens@.len(), |i: int| frame.tokens@[i]@)
                    + self.parser_fn_body() + Seq::new(
                    frame.parser_fn_close@.len(),
                    |i: int| frame.parser_fn_close@[i]@,
                ))) + (Seq::new(n, |i: int| self.state_fn(i)).flatten_alt() + Seq::new(
                    n,
                    |i: int| self.goto_fn(i),
                ).flatten_alt() + self.reduce_fns(productions.len())) + Seq::new(
                    frame.module_close@.len(),
                    |i: int| frame.module_close@[i]@,
                )
            }),
    {
        let frame = self.frame;
        let n = self.states@.len();
        self.lemma_function_lists(n);
        self.lemma_shim_list(self.grammar.productions().len());
        assert(views(frame.module_open@) =~= Seq::new(
            frame.module_open@.len(),
            |i: int| frame.module_open@[i]@,
        ));
        assert(views(frame.parser_fn_open@) =~= Seq::new(
            frame.parser_fn_open@.len(),
            |i: int| frame.parser_fn_open@[i]@,
        ));
        assert(views(frame.tokens@) =~= Seq::new(frame.tokens@.len(), |i: int| frame.tokens@[i]@));
        assert(views(frame.parser_fn_close@) =~= Seq::new(
            frame.parser_fn_close@.len(),
            |i: int| frame.parser_fn_close@[i]@,
        ));
        assert(views(frame.module_close@) =~= Seq::new(
            frame.module_close@.len(),
            |i: int| frame.module_close@[i]@,
        ));
    }

    proof fn lemma_function_lists(self, n: nat)
        ensures
            self.state_fns(n) == Seq::new(n, |i: int| self.state_fn(i)).flatten_alt(),
            self.goto_fns(n) == Seq::new(n, |i: int| self.goto_fn(i)).flatten_alt(),
        decreases n,
    {
        let states = Seq::new(n, |i: int| self.state_fn(i));
        let gotos = Seq::new(n, |i: int| self.goto_fn(i));
        if n > 0 {
            self.lemma_function_lists((n - 1) as nat);
            assert(states.drop_last() =~= Seq::new((n - 1) as nat, |i: int| self.state_fn(i)));
            assert(gotos.drop_last() =~= Seq::new((n - 1) as nat, |i: int| self.goto_fn(i)));
        }
    }

    proof fn lemma_shim_list(self, n: nat)
        ensures
            ({
                let productions = self.grammar.productions();
                self.action_shims(n) == Seq::new(
                    n,
                    |i: int| self.action_shim(productions[i]),
                ).flatten_alt()
            }),
        decreases n,
    {
        let productions = self.grammar.productions();
        let parts = Seq::new(n, |i: int| self.action_shim(productions[i]));
        if n > 0 {
            self.lemma_shim_list((n - 1) as nat);
            assert(parts.drop_last() =~= Seq::new(
                (n - 1) as nat,
                |i: int| self.action_shim(productions[i]),
            ));
        }
    }

    proof fn lemma_state_fn_occurs(self, i: int, n: nat)
        requires
            0 <= i < n,
        ensures
            occurs(self.state_fn(i), self.state_fns(n)),
        decreases n,
    {
        let before = self.state_fns((n - 1) as nat);
        if i == n - 1 {
            lemma_occurs_in_itself(self.state_fn(i));
            lemma_occurs_in_second(self.state_fn(i), before, self.state_fn(n - 1));
        } else {
            self.lemma_state_fn_occurs(i, (n - 1) as nat);
            lemma_occurs_in_first(self.state_fn(i), before, self.state_fn(n - 1));
        }
    }

    proof fn lemma_goto_fn_occurs(self, i: int, n: nat)
        requires
            0 <= i < n,
        ensures
            occurs(self.goto_fn(i), self.goto_fns(n)),
        decreases n,
    {
        let before = self.goto_fns((n - 1) as nat);
        if i == n - 1 {
            lemma_occurs_in_itself(self.goto_fn(i));
            lemma_occurs_in_second(self.goto_fn(i), before, self.goto_fn(n - 1));
        } else {
            self.lemma_goto_fn_occurs(i, (n - 1) as nat);
            lemma_occurs_in_first(self.goto_fn(i), before, self.goto_fn(n - 1));
        }
    }

    proof fn lemma_reduce_fn_occurs(self, i: int, n: nat)
        requires
            0 <= i < n,
            self.has_reduce_fn(self.grammar.productions()[i]),
        ensures
            occurs(self.reduce_fn(self.grammar.productions()[i]), self.reduce_fns(n)),
        decreases n,
    {
        let block = self.reduce_fn(self.grammar.productions()[i]);
        let before = self.reduce_fns((n - 1) as nat);
        let last = self.grammar.productions()[n - 1];
        if i == n - 1 {
            lemma_occurs_in_itself(block);
            lemma_occurs_in_second(block, before, self.reduce_fn(last));
        } else {
            self.lemma_reduce_fn_occurs(i, (n - 1) as nat);
            lemma_occurs_in_first(block, before, self.reduce_fn(last));
        }
    }

    proof fn lemma_action_shim_occurs(self, i: int, n: nat)
        requires
            0 <= i < n,
        ensures
            occurs(self.action_shim(self.grammar.productions()[i]), self.action_shims(n)),
        decreases n,
    {
        let block = self.action_shim(self.grammar.productions()[i]);
        let before = self.action_shims((n - 1) as nat);
        let last = self.grammar.productions()[n - 1];
        if i == n - 1 {
            lemma_occurs_in_itself(block);
            lemma_occurs_in_second(block, before, self.action_shim(last));
        } else {
            self.lemma_action_shim_occurs(i, (n - 1) as nat);
            lemma_occurs_in_first(block, before, self.action_shim(last));
        }
    }

    proof fn lemma_pop_fn_occurs(self, ty: TypeRepr, n: nat)
        requires
            ty.0 < n,
            self.variant_types().contains(ty),
        ensures
            occurs(self.pop_fn(ty), self.pop_fns(n)),
        decreases n,
    {
        let before = self.pop_fns((n - 1) as nat);
        let last = TypeRepr((n - 1) as usize);
        if ty.0 == n - 1 {
            assert(last == ty);
            lemma_occurs_in_itself(self.pop_fn(ty));
            lemma_occurs_in_second(self.pop_fn(ty), before, self.pop_fn(last));
        } else {
            self.lemma_pop_fn_occurs(ty, (n - 1) as nat);
            lemma_occurs_in_first(self.pop_fn(ty), before, self.pop_fn(last));
        }
    }

    /// Every state has its function and its goto function.
    pub proof fn law_states_have_functions(self, i: int)
        requires
            0 <= i < self.states@.len(),
        ensures
            occurs(self.state_fn(i), self.module()),
            occurs(self.goto_fn(i), self.module()),
    {
        let n = self.states@.len();
        let reduces = self.reduce_fns(self.grammar.productions().len());
        self.lemma_state_fn_occurs(i, n);
        lemma_occurs_in_first(self.state_fn(i), self.state_fns(n), self.goto_fns(n));
        lemma_occurs_in_first(self.state_fn(i), self.state_fns(n) + self.goto_fns(n), reduces);
        self.lemma_in_parser_fns(self.state_fn(i));
        self.lemma_goto_fn_occurs(i, n);
        lemma_occurs_in_second(self.goto_fn(i), self.state_fns(n), self.goto_fns(n));
        lemma_occurs_in_first(self.goto_fn(i), self.state_fns(n) + self.goto_fns(n), reduces);
        self.lemma_in_parser_fns(self.goto_fn(i));
    }

    /// Every production that a state reduces by a call has the function that it
    /// calls.
    pub proof fn law_productions_have_reduce_functions(self, production: ProductionView)
        requires
            self.grammar.productions().contains(production),
            self.has_reduce_fn(production),
        ensures
            occurs(self.reduce_fn(production), self.module()),
    {
        let n = self.states@.len();
        let i = self.grammar.productions().index_of(production);
        self.lemma_reduce_fn_occurs(i, self.grammar.productions().len());
        lemma_occurs_in_second(
            self.reduce_fn(production),
            self.state_fns(n) + self.goto_fns(n),
            self.reduce_fns(self.grammar.productions().len()),
        );
        self.lemma_in_parser_fns(self.reduce_fn(production));
    }

    /// Every production has the function that calls its action code.
    pub proof fn law_productions_have_action_functions(self, production: ProductionView)
        requires
            self.grammar.productions().contains(production),
        ensures
            occurs(self.action_shim(production), self.module()),
    {
        let block = self.action_shim(production);
        let i = self.grammar.productions().index_of(production);
        self.lemma_action_shim_occurs(i, self.grammar.productions().len());
        let before = self.transition_macro() + self.value_type_defn() + self.goto_type_defn()
            + self.parser_type_defn() + self.helper_fns() + self.pop_fns(
            self.grammar.types.all@.len(),
        );
        let shims = self.action_shims(self.grammar.productions().len());
        lemma_occurs_in_second(block, before, shims);
        lemma_occurs_in_first(block, before + shims, self.parser_fn());
        self.lemma_in_declarations(block);
    }

    /// Every symbol has the function that pops its value.
    pub proof fn law_symbols_have_pop_functions(self, symbol: Symbol)
        requires
            self.grammar.wf(),
            self.grammar.has_symbol(symbol),
        ensures
            occurs(self.pop_fn(self.grammar.types.type_of(symbol)), self.module()),
    {
        let ty = self.grammar.types.type_of(symbol);
        let block = self.pop_fn(ty);
        self.lemma_symbol_type_listed(symbol);
        assert(self.grammar.types.knows(ty));
        self.lemma_pop_fn_occurs(ty, self.grammar.types.all@.len());
        let before = self.transition_macro() + self.value_type_defn() + self.goto_type_defn()
            + self.parser_type_defn() + self.helper_fns();
        let pops = self.pop_fns(self.grammar.types.all@.len());
        let shims = self.action_shims(self.grammar.productions().len());
        lemma_occurs_in_second(block, before, pops);
        lemma_occurs_in_first(block, before + pops, shims);
        lemma_occurs_in_first(block, before + pops + shims, self.parser_fn());
        self.lemma_in_declarations(block);
    }

    /// All parser functions share one signature: their headers differ in the
    /// line that holds the name, and nowhere else.
    pub proof fn law_parser_functions_share_signature(self, a: Line, b: Line, i: int)
        requires
            0 <= i < self.parser_fn_header(a).len(),
        ensures
            self.parser_fn_header(a).len() == self.parser_fn_header(b).len(),
            self.parser_fn_header(a)[1] == "fn "@ + a + "<"@,
            i != 1 ==> self.parser_fn_header(a)[i] == self.parser_fn_header(b)[i],
            self.parser_fn_header(a)[0] == "#[inline(never)]"@,
    {
        let p = self.prefix();
        let parser = p + "parser: &mut "@ + p + "Parser<"@ + self.type_args() + ">"@;
        let parameters = self.grammar.parameter_decls().push(parser);
        let types = self.fn_type_parameters();
        let clauses = self.grammar.where_clause_texts();
        lemma_header_tail(a, b, types, parameters, "()"@, clauses);
    }

    /// The functions of a state have the headers that all parser functions have.
    pub proof fn law_states_have_parser_functions(self, i: int)
        requires
            0 <= i < self.states@.len(),
        ensures
            occurs(self.parser_fn_header(self.state_name(i as nat)), self.module()),
            occurs(self.parser_fn_header(self.goto_name(i as nat)), self.module()),
    {
        self.law_states_have_functions(i);
        self.lemma_state_header(i);
        self.lemma_goto_header(i);
        let state = self.parser_fn_header(self.state_name(i as nat));
        let goto = self.parser_fn_header(self.goto_name(i as nat));
        lemma_occurs_transitive(state, self.state_fn(i), self.module());
        lemma_occurs_transitive(goto, self.goto_fn(i), self.module());
    }

    proof fn lemma_state_header(self, i: int)
        ensures
            occurs(self.parser_fn_header(self.state_name(i as nat)), self.state_fn(i)),
    {
        let p = self.prefix();
        let header = self.parser_fn_header(self.state_name(i as nat));
        let comment = seq![""@] + if self.emit_comments {
            self.state_comment(i)
        } else {
            seq![]
        };
        let dispatch = seq![
            "let "@ + p + "lookahead = "@ + p + "parser."@ + p + "lookahead.take();"@,
            "match "@ + p + "lookahead {"@,
        ];
        let shifts = self.shift_arms(i, self.states@[i].shifts@.len());
        let reduces = self.reduce_arms(i, self.groups(i).len());
        let error = self.error(self.states@[i]);
        lemma_occurs_in_itself(header);
        lemma_occurs_in_second(header, comment, header);
        lemma_occurs_in_first(header, comment + header, dispatch);
        assert(self.state_open(i) == comment + header + dispatch);
        let open = self.state_open(i);
        lemma_occurs_in_first(header, open, shifts);
        lemma_occurs_in_first(header, open + shifts, reduces);
        lemma_occurs_in_first(header, open + shifts + reduces, seq!["_ => {"@]);
        lemma_occurs_in_first(header, open + shifts + reduces + seq!["_ => {"@], error);
        lemma_occurs_in_first(
            header,
            open + shifts + reduces + seq!["_ => {"@] + error,
            seq!["}"@, "}"@, "}"@],
        );
    }

    proof fn lemma_goto_header(self, i: int)
        ensures
            occurs(self.parser_fn_header(self.goto_name(i as nat)), self.goto_fn(i)),
    {
        let header = self.parser_fn_header(self.goto_name(i as nat));
        let open = self.goto_open(i);
        let start = open.len() - header.len();
        let tail = self.goto_fn(i).skip(open.len() as int);
        assert(open.take(start) + header =~= open);
        assert(open + tail =~= self.goto_fn(i));
        lemma_occurs_in_itself(header);
        lemma_occurs_in_second(header, open.take(start), header);
        lemma_occurs_in_first(header, open, tail);
    }

    /// The function that reduces a production has the header that all parser
    /// functions have.
    pub proof fn law_reduce_functions_are_parser_functions(self, production: ProductionView)
        requires
            self.grammar.productions().contains(production),
            self.has_reduce_fn(production),
        ensures
            occurs(self.parser_fn_header(self.reduce_name(production)), self.module()),
    {
        let header = self.parser_fn_header(self.reduce_name(production));
        let text = self.reduce_fn(production);
        let head = text.take(3);
        let tail = text.skip(3 + header.len() as int);
        assert(head + header + tail =~= text);
        lemma_occurs_in_itself(header);
        lemma_occurs_in_second(header, head, header);
        lemma_occurs_in_first(header, head + header, tail);
        self.law_productions_have_reduce_functions(production);
        lemma_occurs_transitive(header, text, self.module());
    }

    /// Continuations take what the parser functions take: the type of the `i`th
    /// parameter in the type of continuations is that of the `i`th parameter in
    /// the headers.
    pub proof fn law_continuations_share_signature(self, i: int)
        requires
            0 <= i < self.grammar.parameters@.len(),
        ensures
            self.grammar.parameter_decls().len() == self.grammar.parameter_types().len(),
            self.grammar.parameter_decls()[i] == self.grammar.parameters@[i].name@ + ": "@
                + self.grammar.parameter_types()[i],
    {
    }
}

proof fn lemma_header_tail(
    a: Line,
    b: Line,
    type_parameters: Seq<Line>,
    parameters: Seq<Line>,
    return_type: Line,
    where_clauses: Seq<Line>,
)
    ensures
        ({
            let first = fn_header(a, type_parameters, parameters, return_type, where_clauses);
            let second = fn_header(b, type_parameters, parameters, return_type, where_clauses);
            &&& first.len() == second.len()
            &&& first.len() > 0
            &&& first[0] == "fn "@ + a + "<"@
            &&& first.skip(1) == second.skip(1)
        }),
{
    let first = fn_header(a, type_parameters, parameters, return_type, where_clauses);
    let second = fn_header(b, type_parameters, parameters, return_type, where_clauses);
    assert(first.skip(1) =~= second.skip(1));
}

} // verus!
