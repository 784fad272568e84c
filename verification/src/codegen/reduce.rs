//! The reductions: calls of the action code, handles popped off the stack, and
//! the functions that perform a reduction.
use crate::codegen::generator::CodeGenerator;
use crate::codegen::input::Input;
use crate::grammar::{production_views, Production, ProductionView, Symbol};
use crate::lr1::StateIndex;
use crate::rust_write::{fn_header, RustWrite};
use crate::text::{decimal, decimal_text, join, join_text, views, Line};
use vstd::prelude::*;

verus! {

impl<'a, 'grammar> Input<'a, 'grammar> {
    /// The variable for symbol `i` of a handle.
    pub open spec fn sym(self, i: int) -> Line {
        let p = self.prefix();
        let index = decimal(i as nat);
        p + "sym"@ + index
    }

    /// The variables for the symbols of a handle.
    pub open spec fn syms(self, len: nat) -> Seq<Line> {
        Seq::new(len, |i: int| self.sym(i))
    }

    /// The parameters of the function that calls a production's action code.
    pub open spec fn action_parameters(self, production: ProductionView) -> Seq<Line> {
        let p = self.prefix();
        let loc = self.grammar.types.loc();
        if production.symbols.len() == 0 {
            seq![
                p + "start: &"@ + loc,
                p + "end: &"@ + loc,
            ]
        } else {
            Seq::new(
                production.symbols.len(),
                |i: int|
                    self.sym(i) + ": "@ + self.grammar.types.spanned(
                        self.grammar.types.type_of(production.symbols[i]),
                    ),
            )
        }
    }

    /// What a production's action code returns.
    pub open spec fn action_result(self, production: ProductionView) -> Line {
        let types = self.grammar.types;
        let value = types.text_of(types.type_of(Symbol::Nonterminal(production.nonterminal)));
        let error = types.error();
        if self.grammar.fallible@[production.action.0 as int] {
            "Result<"@ + value + ", "@ + error + ">"@
        } else {
            value
        }
    }

    /// The arguments that are passed on to a production's action code.
    pub open spec fn action_arguments(self, production: ProductionView) -> Seq<Line> {
        let p = self.prefix();
        if production.symbols.len() == 0 {
            seq![
                p + "start"@,
                p + "end"@,
            ]
        } else {
            self.syms(production.symbols.len())
        }
    }

    /// The call of a production's action code itself.
    pub open spec fn action_line(self, production: ProductionView) -> Line {
        let p = self.prefix();
        let module = self.action_module@;
        let action = decimal(production.action.0 as nat);
        let types = self.grammar.type_arguments();
        let refs = self.grammar.user_refs();
        let args = join(", "@, self.action_arguments(production));
        module + "::"@ + p + "action"@ + action + "::<"@ + types + ">("@ + refs + args + ")"@
    }

    /// The function that calls a production's action code.
    pub open spec fn action_shim(self, production: ProductionView) -> Seq<Line> {
        seq![
            "#[allow(dead_code)]"@,
            "#[inline(never)]"@,
        ] + fn_header(
            self.action_name(production),
            self.grammar.type_parameter_names(),
            self.grammar.parameter_decls() + self.action_parameters(production),
            self.action_result(production),
            self.grammar.where_clause_texts(),
        ) + seq![
            "{"@,
            self.action_line(production),
            "}"@,
            ""@,
        ]
    }

    /// The functions that call the action code of the first `n` productions.
    pub open spec fn action_shims(self, n: nat) -> Seq<Line>
        decreases n,
    {
        if n == 0 {
            seq![]
        } else {
            self.action_shims((n - 1) as nat) + self.action_shim(self.grammar.productions()[n - 1])
        }
    }

    /// The arguments with which a parser function calls the action code.
    pub open spec fn call_arguments(self, production: ProductionView) -> Seq<Line> {
        let p = self.prefix();
        if production.symbols.len() == 0 {
            seq![
                "&"@ + p + "start"@,
                "&"@ + p + "end"@,
            ]
        } else {
            self.syms(production.symbols.len())
        }
    }

    /// The call of the action code from a parser function.
    pub open spec fn action_call(self, production: ProductionView) -> Seq<Line> {
        let p = self.prefix();
        let name = self.action_name(production);
        let types = self.grammar.type_arguments();
        let refs = self.grammar.user_refs();
        let args = join(", "@, self.call_arguments(production));
        if self.grammar.fallible@[production.action.0 as int] {
            seq![
                "let "@ + p + "nt = match "@ + name + "::<"@ + types + ">("@ + refs + args
                    + ") {"@,
                "Ok("@ + p + "v) => "@ + p + "v,"@,
                "Err("@ + p + "e) => { "@ + p + "parser."@ + p + "result = Some(Err("@ + p
                    + "e)); return; }"@,
                "};"@,
            ]
        } else {
            seq![
                "let "@ + p + "nt = "@ + name + "::<"@ + types + ">("@ + refs + args + ");"@,
            ]
        }
    }

    /// Pops symbol `index` of a handle.
    pub open spec fn pop_line(
        self,
        production: ProductionView,
        bind_goto: bool,
        index: int,
    ) -> Line {
        let p = self.prefix();
        let sym = self.sym(index);
        let goto = if index == 0 && bind_goto {
            p + "goto"@
        } else {
            "_"@
        };
        let name = self.pop_name(self.grammar.types.type_of(production.symbols[index]));
        "let ("@ + sym + ", "@ + goto + ") = "@ + name + "(&mut "@ + p + "parser."@ + p
            + "stack);"@
    }

    /// Pops a handle, top of the stack first.
    pub open spec fn pop_lines(self, production: ProductionView, bind_goto: bool) -> Seq<Line> {
        let len = production.symbols.len();
        Seq::new(len, |k: int| self.pop_line(production, bind_goto, len - 1 - k))
    }

    /// Checks that the stack holds a handle of more than one symbol.
    pub open spec fn handle_check(self, production: ProductionView) -> Seq<Line> {
        let p = self.prefix();
        let len = decimal(production.symbols.len());
        if production.symbols.len() > 1 {
            seq![
                "assert!("@ + p + "parser."@ + p + "stack.len() >= "@ + len + ");"@,
            ]
        } else {
            seq![]
        }
    }

    /// Pops a handle, and binds the locations that it spans.
    pub open spec fn pop_handle(self, production: ProductionView, bind_goto: bool) -> Seq<Line> {
        let p = self.prefix();
        let last = self.sym(production.symbols.len() - 1);
        self.handle_check(production) + self.pop_lines(production, bind_goto) + seq![
            "let "@ + p + "start = "@ + p + "sym0.0.clone();"@,
            "let "@ + p + "end = "@ + last + ".2.clone();"@,
        ]
    }

    /// The header of a parser function, with the brace that opens its body.
    pub open spec fn parser_fn_header(self, name: Line) -> Seq<Line> {
        let p = self.prefix();
        let args = self.type_args();
        let parser = p + "parser: &mut "@ + p + "Parser<"@ + args + ">"@;
        seq!["#[inline(never)]"@] + fn_header(
            name,
            self.fn_type_parameters(),
            self.grammar.parameter_decls().push(parser),
            "()"@,
            self.grammar.where_clause_texts(),
        ) + seq!["{"@]
    }

    /// Ends the parse with the value of the start symbol.
    pub open spec fn accept(self, production: ProductionView) -> Seq<Line> {
        let p = self.prefix();
        self.pop_handle(production, false) + self.action_call(production) + seq![
            p + "parser."@ + p + "result = Some(match "@ + p + "lookahead {"@,
            "None => Ok("@ + p + "nt),"@,
            "Some("@ + p + "token) => Err("@ + p
                + "lalrpop_util::ParseError::ExtraToken { token: "@ + p + "token }),"@,
            "});"@,
            "return;"@,
        ]
    }

    /// Binds the empty span of an empty production.
    pub open spec fn empty_span(self) -> Seq<Line> {
        let p = self.prefix();
        seq![
            "let "@ + p + "start = match &"@ + p + "parser."@ + p + "lookahead {"@,
            "Some("@ + p + "t) => "@ + p + "t.0.clone(),"@,
            "None => match "@ + p + "parser."@ + p + "stack.last() {"@,
            "Some("@ + p + "entry) => ("@ + p + "entry.0).2.clone(),"@,
            "None => Default::default(),"@,
            "},"@,
            "};"@,
            "let "@ + p + "end = "@ + p + "start.clone();"@,
        ]
    }

    /// Reduces an empty production in state `state`.
    pub open spec fn empty_reduce(self, state: int, production: ProductionView) -> Seq<Line> {
        let p = self.prefix();
        let variant = self.variant_for(Symbol::Nonterminal(production.nonterminal));
        let goto = self.goto_name(state as nat);
        let target = self.states@[state].goto(production.nonterminal);
        self.empty_span() + self.action_call(production) + seq![
            p + "parser."@ + p + "stack.push((("@ + p + "start, "@ + p + "Symbol::"@ + variant
                + "("@ + p + "nt), "@ + p + "end), "@ + p + "Goto("@ + goto + ")));"@,
            self.transition(self.state_name(target.0 as nat)),
        ]
    }

    /// The function that reduces a production.
    pub open spec fn reduce_fn(self, production: ProductionView) -> Seq<Line> {
        let p = self.prefix();
        let text = self.production_text(production);
        let variant = self.variant_for(Symbol::Nonterminal(production.nonterminal));
        let index = decimal(production.nonterminal.0 as nat);
        seq![
            ""@,
            "// "@ + text,
            "#[allow(dead_code)]"@,
        ] + self.parser_fn_header(self.reduce_name(production)) + self.pop_handle(production, true)
            + self.action_call(production) + seq![
            p + "parser."@ + p + "stack.push((("@ + p + "start, "@ + p + "Symbol::"@ + variant
                + "("@ + p + "nt), "@ + p + "end), "@ + p + "goto));"@,
            p + "parser."@ + p + "reduced_nt = "@ + index + ";"@,
            self.transition("("@ + p + "goto.0)"@),
            "}"@,
        ]
    }

    /// Whether a production is reduced by a function of its own.
    pub open spec fn has_reduce_fn(self, production: ProductionView) -> bool {
        production.nonterminal != self.start_symbol && production.symbols.len() > 0
    }

    /// The functions that reduce the first `n` productions.
    pub open spec fn reduce_fns(self, n: nat) -> Seq<Line>
        decreases n,
    {
        if n == 0 {
            seq![]
        } else {
            let before = self.reduce_fns((n - 1) as nat);
            let production = self.grammar.productions()[n - 1];
            if self.has_reduce_fn(production) {
                before + self.reduce_fn(production)
            } else {
                before
            }
        }
    }
}

impl<'a, 'grammar> CodeGenerator<'a, 'grammar> {
    fn sym_text(&self, i: usize) -> (text: String)
        ensures
            text@ == self.input.sym(i as int),
    {
        let p = self.prefix();
        let index_text = decimal_text(i);
        let index = index_text.as_str();
        p.to_owned().concat("sym").concat(index)
    }

    fn sym_list(&self, len: usize) -> (list: Vec<String>)
        ensures
            views(list@) == self.input.syms(len as nat),
    {
        let mut list: Vec<String> = Vec::new();
        let mut i: usize = 0;
        while i < len
            invariant
                i <= len,
                list.len() == i,
                forall|k: int| 0 <= k < i ==> (#[trigger] list@[k])@ == self.input.sym(k),
            decreases len - i,
        {
            list.push(self.sym_text(i));
            i += 1;
        }
        assert(views(list@) =~= self.input.syms(len as nat));
        list
    }

    /// The user's parameters, followed by those of a production's action.
    fn action_parameter_list(&self, production: &Production) -> (list: Vec<String>)
        requires
            self.wf(),
            self.input.grammar.resolves(production@),
        ensures
            views(list@) == self.input.grammar.parameter_decls() + self.input.action_parameters(
                production@,
            ),
    {
        let p = self.prefix();
        let types = &self.input.grammar.types;
        let loc = types.terminal_loc_type();
        let mut list = self.input.grammar.parameter_list();
        let ghost before = views(list@);
        let ghost own = self.input.action_parameters(production@);
        if production.symbols.is_empty() {
            list.push(p.to_owned().concat("start: &").concat(loc));
            list.push(p.to_owned().concat("end: &").concat(loc));
            assert(views(list@) =~= before + own);
        } else {
            let mut i: usize = 0;
            assert(views(list@) =~= before + own.take(0));
            while i < production.symbols.len()
                invariant
                    self.wf(),
                    self.input.grammar.resolves(production@),
                    types == &self.input.grammar.types,
                    production.symbols.len() > 0,
                    own == self.input.action_parameters(production@),
                    i <= production.symbols.len(),
                    views(list@) == before + own.take(i as int),
                decreases production.symbols.len() - i,
            {
                let symbol: Symbol = production.symbols[i];
                assert(self.input.grammar.has_symbol(production@.symbols[i as int]));
                let ty = match symbol {
                    Symbol::Terminal(t) => types.terminal_type(t),
                    Symbol::Nonterminal(n) => types.nonterminal_type(n),
                };
                let ghost previous = list@;
                list.push(self.sym_text(i).concat(": ").concat(types.spanned_type(ty).as_str()));
                assert(views(list@) =~= views(previous).push(own[i as int]));
                i += 1;
                assert(before + own.take(i as int) =~= (before + own.take(i - 1)).push(
                    own[i - 1],
                ));
            }
            assert(own.take(i as int) =~= own);
        }
        list
    }

    /// What a production's action code returns.
    fn action_result_type(&self, production: &Production) -> (text: String)
        requires
            self.wf(),
            self.input.grammar.resolves(production@),
        ensures
            text@ == self.input.action_result(production@),
    {
        let types = &self.input.grammar.types;
        let value = types.text(types.nonterminal_type(production.nonterminal));
        let error = types.parse_error_type();
        if self.input.grammar.action_is_fallible(production.action) {
            "Result<".to_owned().concat(value).concat(", ").concat(error).concat(">")
        } else {
            value.to_owned()
        }
    }

    fn write_action_shim(&self, out: &mut RustWrite, production: &Production)
        requires
            self.wf(),
            self.input.grammar.resolves(production@),
            self.input.grammar.productions().contains(production@),
        ensures
            final(out)@ == old(out)@ + self.input.action_shim(production@),
    {
        let p = self.prefix();
        let arg_list = if production.symbols.is_empty() {
            let mut list: Vec<String> = Vec::new();
            list.push(p.to_owned().concat("start"));
            list.push(p.to_owned().concat("end"));
            assert(views(list@) =~= self.input.action_arguments(production@));
            list
        } else {
            self.sym_list(production.symbols.len())
        };
        let arg_text = join_text(", ", &arg_list);
        let args = arg_text.as_str();
        let parameters = self.action_parameter_list(production);
        let result = self.action_result_type(production);
        let name = self.action_name(production);
        out.writeln("#[allow(dead_code)]".to_owned());
        out.writeln("#[inline(never)]".to_owned());
        out.write_fn_header(
            name.as_str(),
            &self.input.grammar.type_parameter_list(),
            &parameters,
            result.as_str(),
            &self.input.grammar.where_clause_list(),
        );
        out.writeln("{".to_owned());
        let module = self.input.action_module;
        let action_text = decimal_text(production.action.0);
        let action = action_text.as_str();
        let type_text = self.input.grammar.non_lifetime_type_parameters();
        let types = type_text.as_str();
        let ref_text = self.input.grammar.user_parameter_refs();
        let refs = ref_text.as_str();
        out.writeln(
            module.to_owned().concat("::").concat(p).concat("action").concat(action)
                .concat("::<").concat(types).concat(">(").concat(refs).concat(args).concat(")"),
        );
        out.writeln("}".to_owned());
        out.writeln("".to_owned());
        assert(out@ =~= old(out)@ + self.input.action_shim(production@));
    }

    /// One `#[inline(never)]` wrapper around each production's action code.
    /// The parser functions call the action through these shims rather than
    /// directly, so that user action code is never inlined into a parser
    /// function: action code can contain constructs (for example, a panic
    /// path that passes a local by reference) that make LLVM consider the
    /// surrounding function's stack as escaping, which stops the final
    /// transition from being compiled as a tail call.
    pub fn write_action_shims(&self, out: &mut RustWrite)
        requires
            self.wf(),
        ensures
            final(out)@ == old(out)@ + self.input.action_shims(
                self.input.grammar.productions().len(),
            ),
    {
        let productions = self.input.grammar.all_productions();
        let mut i: usize = 0;
        assert(out@ =~= old(out)@ + self.input.action_shims(0));
        while i < productions.len()
            invariant
                self.wf(),
                production_views(productions@) == self.input.grammar.productions(),
                i <= productions.len(),
                out@ == old(out)@ + self.input.action_shims(i as nat),
            decreases productions.len() - i,
        {
            let production = productions[i];
            assert(self.input.grammar.productions()[i as int] == production@);
            self.write_action_shim(out, production);
            i += 1;
            assert(out@ =~= old(out)@ + self.input.action_shims(i as nat));
        }
    }

    /// Emits the call to the action code, binding the result as `nt`. For
    /// non-empty productions the `symN` triples must already be in scope;
    /// for empty productions, `start`/`end` locations must be.
    pub fn emit_action_call(&self, out: &mut RustWrite, production: &Production)
        requires
            self.wf(),
            self.input.grammar.productions().contains(production@),
        ensures
            final(out)@ == old(out)@ + self.input.action_call(production@),
    {
        assert(self.input.grammar.resolves(production@));
        let p = self.prefix();
        let arg_list = if production.symbols.is_empty() {
            let mut list: Vec<String> = Vec::new();
            list.push("&".to_owned().concat(p).concat("start"));
            list.push("&".to_owned().concat(p).concat("end"));
            assert(views(list@) =~= self.input.call_arguments(production@));
            list
        } else {
            self.sym_list(production.symbols.len())
        };
        let arg_text = join_text(", ", &arg_list);
        let args = arg_text.as_str();
        let action_name = self.action_name(production);
        let name = action_name.as_str();
        let type_text = self.input.grammar.non_lifetime_type_parameters();
        let types = type_text.as_str();
        let ref_text = self.input.grammar.user_parameter_refs();
        let refs = ref_text.as_str();
        if self.input.grammar.action_is_fallible(production.action) {
            out.writeln(
                "let ".to_owned().concat(p).concat("nt = match ").concat(name).concat("::<")
                    .concat(types).concat(">(").concat(refs).concat(args).concat(") {"),
            );
            out.writeln("Ok(".to_owned().concat(p).concat("v) => ").concat(p).concat("v,"));
            out.writeln(
                "Err(".to_owned().concat(p).concat("e) => { ").concat(p).concat("parser.")
                    .concat(p).concat("result = Some(Err(").concat(p).concat("e)); return; }"),
            );
            out.writeln("};".to_owned());
        } else {
            out.writeln(
                "let ".to_owned().concat(p).concat("nt = ").concat(name).concat("::<")
                    .concat(types).concat(">(").concat(refs).concat(args).concat(");"),
            );
        }
        assert(out@ =~= old(out)@ + self.input.action_call(production@));
    }

    fn emit_pop(
        &self,
        out: &mut RustWrite,
        production: &Production,
        bind_goto: bool,
        index: usize,
    )
        requires
            self.wf(),
            self.named(),
            self.input.grammar.resolves(production@),
            index < production.symbols@.len(),
        ensures
            final(out)@ == old(out)@.push(
                self.input.pop_line(production@, bind_goto, index as int),
            ),
    {
        let p = self.prefix();
        let sym_text = self.sym_text(index);
        let sym = sym_text.as_str();
        let goto_text = if index == 0 && bind_goto {
            p.to_owned().concat("goto")
        } else {
            "_".to_owned()
        };
        let goto = goto_text.as_str();
        assert(self.input.grammar.has_symbol(production@.symbols[index as int]));
        proof {
            self.lemma_symbol_named(production@.symbols[index as int]);
        }
        let variant_name = self.variant_name_for_symbol(production.symbols[index]);
        let variant = variant_name.as_str();
        let pop_name = p.to_owned().concat("pop_").concat(variant);
        let name = pop_name.as_str();
        out.writeln(
            "let (".to_owned().concat(sym).concat(", ").concat(goto).concat(") = ").concat(name)
                .concat("(&mut ").concat(p).concat("parser.").concat(p).concat("stack);"),
        );
    }

    /// Emits code that pops the production's handle off the explicit stack,
    /// binding each `symN` to a spanned value of its true type and computing
    /// the `start`/`end` locations. If `bind_goto` is true, the continuation
    /// found on the deepest entry is bound as `goto`.
    ///
    /// Popping and downcasting happen together inside the per-variant
    /// `pop_VariantN` helper functions rather than inline: the helpers keep
    /// the type-mismatch panic (and the unwind cleanups of the symbols still
    /// held across it) out of the reduce function's own MIR. Inlining the
    /// downcasts here makes rustc guard those cleanups with drop flags,
    /// which gives the final transition an unwind edge -- and a call with an
    /// unwind edge can never become a tail call.
    pub fn emit_pop_handle(&self, out: &mut RustWrite, production: &Production, bind_goto: bool)
        requires
            self.wf(),
            self.named(),
            self.input.grammar.resolves(production@),
            production.symbols@.len() > 0,
        ensures
            final(out)@ == old(out)@ + self.input.pop_handle(production@, bind_goto),
    {
        let p = self.prefix();
        let len: usize = production.symbols.len();
        if len > 1 {
            // By asserting that there are enough elements to pop before
            // popping multiple elements we may help LLVM to optimize better
            // since it does not need to generate panic branches for each
            // unwrap
            let len_text = decimal_text(len);
            let count = len_text.as_str();
            out.writeln(
                "assert!(".to_owned().concat(p).concat("parser.").concat(p)
                    .concat("stack.len() >= ").concat(count).concat(");"),
            );
        }
        let ghost head = old(out)@ + self.input.handle_check(production@);
        let ghost pops = self.input.pop_lines(production@, bind_goto);
        assert(out@ =~= head + pops.take(0));

        // pop the handle, top of the stack first; the deepest entry carries
        // the goto row of the surviving state
        let mut index: usize = len;
        while index > 0
            invariant
                self.wf(),
                self.named(),
                self.input.grammar.resolves(production@),
                len == production.symbols@.len(),
                pops == self.input.pop_lines(production@, bind_goto),
                index <= len,
                out@ == head + pops.take(len - index),
            decreases index,
        {
            index -= 1;
            self.emit_pop(out, production, bind_goto, index);
            assert(out@ =~= head + pops.take(len - index));
        }
        assert(pops.take(len as int) =~= pops);
        let last_text = self.sym_text(len - 1);
        let last = last_text.as_str();
        out.writeln(
            "let ".to_owned().concat(p).concat("start = ").concat(p).concat("sym0.0.clone();"),
        );
        out.writeln(
            "let ".to_owned().concat(p).concat("end = ").concat(last).concat(".2.clone();"),
        );
        assert(out@ =~= old(out)@ + self.input.pop_handle(production@, bind_goto));
    }

    /// Emits the header of a state/goto/reduce function. These all share the
    /// exact same signature: the grammar's user parameters and the parser
    /// struct. This uniformity is required for `become` (which insists that
    /// caller and callee signatures match) and makes every transition a
    /// sibling call for LLVM otherwise.
    ///
    /// The functions are `#[inline(never)]`: when LLVM inlines one parser
    /// function into another, the inlinee's tail calls land in the middle of
    /// the merged function (followed by the inliner's block structure and
    /// stack-slot cleanup), which stops the backend from emitting them as
    /// jumps -- and the native stack starts growing per transition again.
    /// Keeping each function standalone keeps its transitions in genuine
    /// tail position.
    pub fn emit_parser_fn_header(&self, out: &mut RustWrite, name: &str)
        requires
            self.wf(),
        ensures
            final(out)@ == old(out)@ + self.input.parser_fn_header(name@),
    {
        let p = self.prefix();
        let type_args = self.parser_type_args();
        let args = type_args.as_str();
        let mut parameters = self.input.grammar.parameter_list();
        let ghost before = parameters@;
        let parser = p.to_owned().concat("parser: &mut ").concat(p).concat("Parser<")
            .concat(args).concat(">");
        let ghost parser_text = parser@;
        parameters.push(parser);
        assert(views(parameters@) =~= views(before).push(parser_text));
        out.writeln("#[inline(never)]".to_owned());
        out.write_fn_header(
            name,
            &self.fn_type_parameter_list(),
            &parameters,
            "()",
            &self.input.grammar.where_clause_list(),
        );
        out.writeln("{".to_owned());
        assert(out@ =~= old(out)@ + self.input.parser_fn_header(name@));
    }

    /// Emits the accept code for the start production `S' = S`: pop the
    /// handle, run the action, and return the parsed value (or report an
    /// `ExtraToken` error if there is remaining input).
    pub fn emit_accept(&self, out: &mut RustWrite, production: &Production)
        requires
            self.wf(),
            self.named(),
            self.input.grammar.productions().contains(production@),
            production.symbols@.len() > 0,
        ensures
            final(out)@ == old(out)@ + self.input.accept(production@),
    {
        assert(self.input.grammar.resolves(production@));
        let p = self.prefix();
        self.emit_pop_handle(out, production, false);
        self.emit_action_call(out, production);
        out.writeln(
            p.to_owned().concat("parser.").concat(p).concat("result = Some(match ").concat(p)
                .concat("lookahead {"),
        );
        out.writeln("None => Ok(".to_owned().concat(p).concat("nt),"));
        out.writeln(
            "Some(".to_owned().concat(p).concat("token) => Err(").concat(p)
                .concat("lalrpop_util::ParseError::ExtraToken { token: ").concat(p)
                .concat("token }),"),
        );
        out.writeln("});".to_owned());
        out.writeln("return;".to_owned());
        assert(out@ =~= old(out)@ + self.input.accept(production@));
    }

    /// Emits the reduce code for an empty production directly inside the
    /// state function: nothing is popped, so the surviving state is the
    /// current state itself and the goto is a direct, static transition.
    pub fn emit_empty_reduce(
        &self,
        out: &mut RustWrite,
        this_index: StateIndex,
        production: &Production,
    )
        requires
            self.wf(),
            self.named(),
            this_index.0 < self.input.states@.len(),
            self.input.grammar.productions().contains(production@),
            production.symbols@.len() == 0,
            self.input.states@[this_index.0 as int].has_goto(production.nonterminal),
        ensures
            final(out)@ == old(out)@ + self.input.empty_reduce(this_index.0 as int, production@),
    {
        assert(self.input.grammar.resolves(production@));
        let p = self.prefix();
        let next_index: StateIndex = self.input.states[this_index.0].find_goto(
            production.nonterminal,
        );

        // the span of an empty production is empty; anchor it at the
        // lookahead, or failing that at the end of the top stack symbol
        out.writeln(
            "let ".to_owned().concat(p).concat("start = match &").concat(p).concat("parser.")
                .concat(p).concat("lookahead {"),
        );
        out.writeln(
            "Some(".to_owned().concat(p).concat("t) => ").concat(p).concat("t.0.clone(),"),
        );
        out.writeln(
            "None => match ".to_owned().concat(p).concat("parser.").concat(p)
                .concat("stack.last() {"),
        );
        out.writeln(
            "Some(".to_owned().concat(p).concat("entry) => (").concat(p)
                .concat("entry.0).2.clone(),"),
        );
        out.writeln("None => Default::default(),".to_owned());
        out.writeln("},".to_owned());
        out.writeln("};".to_owned());
        out.writeln(
            "let ".to_owned().concat(p).concat("end = ").concat(p).concat("start.clone();"),
        );
        assert(out@ =~= old(out)@ + self.input.empty_span());
        self.emit_action_call(out, production);
        proof {
            self.lemma_symbol_named(Symbol::Nonterminal(production.nonterminal));
        }
        let variant_name = self.variant_name_for_symbol(
            Symbol::Nonterminal(production.nonterminal),
        );
        let variant = variant_name.as_str();
        let goto_name = self.goto_name(this_index);
        let goto = goto_name.as_str();
        out.writeln(
            p.to_owned().concat("parser.").concat(p).concat("stack.push(((").concat(p)
                .concat("start, ").concat(p).concat("Symbol::").concat(variant).concat("(")
                .concat(p).concat("nt), ").concat(p).concat("end), ").concat(p).concat("Goto(")
                .concat(goto).concat(")));"),
        );
        out.writeln(self.transition(self.state_name(next_index).as_str()));
        assert(out@ =~= old(out)@ + self.input.empty_reduce(this_index.0 as int, production@));
    }

    /// Writes the function that reduces a production.
    pub fn write_reduce_fn(&self, out: &mut RustWrite, production: &Production)
        requires
            self.wf(),
            self.named(),
            self.input.grammar.productions().contains(production@),
            production.symbols@.len() > 0,
        ensures
            final(out)@ == old(out)@ + self.input.reduce_fn(production@),
    {
        assert(self.input.grammar.resolves(production@));
        let p = self.prefix();
        let production_text = self.production_text(production);
        let text = production_text.as_str();
        out.writeln("".to_owned());
        out.writeln("// ".to_owned().concat(text));
        // some productions may not be reachable from the start symbol
        out.writeln("#[allow(dead_code)]".to_owned());
        let reduce_name = self.reduce_name(production);
        self.emit_parser_fn_header(out, reduce_name.as_str());

        self.emit_pop_handle(out, production, true);
        self.emit_action_call(out, production);

        // push the reduced nonterminal, paired with the surviving state's
        // goto row (which is exactly the continuation we just popped), and
        // transfer control to that goto row
        proof {
            self.lemma_symbol_named(Symbol::Nonterminal(production.nonterminal));
        }
        let variant_name = self.variant_name_for_symbol(
            Symbol::Nonterminal(production.nonterminal),
        );
        let variant = variant_name.as_str();
        out.writeln(
            p.to_owned().concat("parser.").concat(p).concat("stack.push(((").concat(p)
                .concat("start, ").concat(p).concat("Symbol::").concat(variant).concat("(")
                .concat(p).concat("nt), ").concat(p).concat("end), ").concat(p)
                .concat("goto));"),
        );
        let index_text = decimal_text(self.nonterminal_index(production.nonterminal));
        let index = index_text.as_str();
        out.writeln(
            p.to_owned().concat("parser.").concat(p).concat("reduced_nt = ").concat(index)
                .concat(";"),
        );
        let goto_name = "(".to_owned().concat(p).concat("goto.0)");
        out.writeln(self.transition(goto_name.as_str()));
        out.writeln("}".to_owned());
        assert(out@ =~= old(out)@ + self.input.reduce_fn(production@));
    }

    /// Writes one shared reduce function per (non-empty, non-start)
    /// production. Unlike classic recursive ascent -- where the reduce code
    /// is specialized to each state because the handle lives in the state
    /// functions' frames -- the handle here is always on the explicit stack,
    /// so the reduce code is state-independent: pop the handle, run the
    /// action, and transfer control to the continuation stored on the
    /// deepest popped entry (the goto row of the surviving state).
    pub fn write_reduce_fns(&self, out: &mut RustWrite)
        requires
            self.wf(),
            self.named(),
        ensures
            final(out)@ == old(out)@ + self.input.reduce_fns(
                self.input.grammar.productions().len(),
            ),
    {
        let productions = self.input.grammar.all_productions();
        let mut i: usize = 0;
        assert(out@ =~= old(out)@ + self.input.reduce_fns(0));
        while i < productions.len()
            invariant
                self.wf(),
                self.named(),
                production_views(productions@) == self.input.grammar.productions(),
                i <= productions.len(),
                out@ == old(out)@ + self.input.reduce_fns(i as nat),
            decreases productions.len() - i,
        {
            let production = productions[i];
            assert(self.input.grammar.productions()[i as int] == production@);
            if production.nonterminal != self.input.start_symbol && !production.symbols.is_empty() {
                self.write_reduce_fn(out, production);
            }
            i += 1;
            assert(out@ =~= old(out)@ + self.input.reduce_fns(i as nat));
        }
    }
}

} // verus!
