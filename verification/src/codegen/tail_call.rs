//! The whole parser.
use crate::codegen::generator::CodeGenerator;
use crate::codegen::input::{Frame, Input};
use crate::grammar::{Grammar, NonterminalString};
use crate::lr1::{Lr1State, StateIndex};
use crate::rust_write::RustWrite;
use crate::text::{lemma_append, views, Line};
use vstd::prelude::*;

verus! {

impl<'a, 'grammar> Input<'a, 'grammar> {
    /// Builds the parser, primes the lookahead, and enters state 0.
    pub open spec fn parser_fn_body(self) -> Seq<Line> {
        let p = self.prefix();
        let phantom = self.phantom_expr();
        let refs = self.grammar.user_refs();
        seq![
            "let mut "@ + p + "parser = "@ + p + "Parser {"@,
            p + "tokens,"@,
            p + "lookahead: None,"@,
            p + "stack: alloc::vec::Vec::with_capacity(16),"@,
            p + "reduced_nt: 0,"@,
            p + "result: None,"@,
            p + "phantom: "@ + phantom + ","@,
            "};"@,
            p + "parser."@ + p + "lookahead = "@ + p + "next_token(&mut "@ + p + "parser."@ + p
                + "tokens, "@ + phantom + ")?;"@,
            p + "state0("@ + refs + "&mut "@ + p + "parser);"@,
            p + "parser."@ + p + "result.expect(\"tail call parser did not produce a result\")"@,
        ]
    }

    /// The function that users call.
    pub open spec fn parser_fn(self) -> Seq<Line> {
        views(self.frame.parser_fn_open@) + views(self.frame.tokens@) + self.parser_fn_body()
            + views(self.frame.parser_fn_close@)
    }

    /// What stands in the module before the functions of the states.
    pub open spec fn declarations(self) -> Seq<Line> {
        self.transition_macro() + self.value_type_defn() + self.goto_type_defn()
            + self.parser_type_defn() + self.helper_fns() + self.pop_fns(
            self.grammar.types.all@.len(),
        ) + self.action_shims(self.grammar.productions().len()) + self.parser_fn()
    }

    /// The functions of the states and of the productions.
    pub open spec fn parser_fns(self) -> Seq<Line> {
        self.state_fns(self.states@.len()) + self.goto_fns(self.states@.len()) + self.reduce_fns(
            self.grammar.productions().len(),
        )
    }

    /// The module that holds the parser.
    pub open spec fn module(self) -> Seq<Line> {
        views(self.frame.module_open@) + self.declarations() + self.parser_fns() + views(
            self.frame.module_close@,
        )
    }
}

impl<'a, 'grammar> CodeGenerator<'a, 'grammar> {
    /// Generates the entry point: build the parser struct, prime the lookahead,
    /// and enter state 0.
    pub fn write_parser_fn(&self, out: &mut RustWrite)
        ensures
            final(out)@ == old(out)@ + self.input.parser_fn(),
    {
        let p = self.prefix();
        out.write_lines(&self.input.frame.parser_fn_open);
        out.write_lines(&self.input.frame.tokens);
        let ghost head = out@;
        let phantom_expr = self.phantom_data_expr();
        let phantom = phantom_expr.as_str();
        out.writeln(
            "let mut ".to_owned().concat(p).concat("parser = ").concat(p).concat("Parser {"),
        );
        out.writeln(p.to_owned().concat("tokens,"));
        out.writeln(p.to_owned().concat("lookahead: None,"));
        out.writeln(p.to_owned().concat("stack: alloc::vec::Vec::with_capacity(16),"));
        out.writeln(p.to_owned().concat("reduced_nt: 0,"));
        out.writeln(p.to_owned().concat("result: None,"));
        out.writeln(p.to_owned().concat("phantom: ").concat(phantom).concat(","));
        out.writeln("};".to_owned());
        out.writeln(
            p.to_owned().concat("parser.").concat(p).concat("lookahead = ").concat(p)
                .concat("next_token(&mut ").concat(p).concat("parser.").concat(p)
                .concat("tokens, ").concat(phantom).concat(")?;"),
        );
        let user_refs = self.input.grammar.user_parameter_refs();
        let refs = user_refs.as_str();
        out.writeln(
            p.to_owned().concat("state0(").concat(refs).concat("&mut ").concat(p)
                .concat("parser);"),
        );
        // every terminal path (accept or error) fills in the result before
        // returning
        out.writeln(
            p.to_owned().concat("parser.").concat(p)
                .concat("result.expect(\"tail call parser did not produce a result\")"),
        );
        assert(out@ =~= head + self.input.parser_fn_body());
        out.write_lines(&self.input.frame.parser_fn_close);
        assert(out@ =~= old(out)@ + self.input.parser_fn());
    }

    fn write_state_fns(&self, out: &mut RustWrite)
        requires
            self.wf(),
            self.named(),
        ensures
            final(out)@ == old(out)@ + self.input.state_fns(self.input.states@.len()),
    {
        let mut i: usize = 0;
        assert(out@ =~= old(out)@ + self.input.state_fns(0));
        while i < self.input.states.len()
            invariant
                self.wf(),
                self.named(),
                i <= self.input.states@.len(),
                out@ == old(out)@ + self.input.state_fns(i as nat),
            decreases self.input.states@.len() - i,
        {
            self.write_state_fn(out, StateIndex(i));
            i += 1;
            assert(out@ =~= old(out)@ + self.input.state_fns(i as nat));
        }
    }

    fn write_goto_fns(&self, out: &mut RustWrite)
        requires
            self.wf(),
        ensures
            final(out)@ == old(out)@ + self.input.goto_fns(self.input.states@.len()),
    {
        let mut i: usize = 0;
        assert(out@ =~= old(out)@ + self.input.goto_fns(0));
        while i < self.input.states.len()
            invariant
                self.wf(),
                i <= self.input.states@.len(),
                out@ == old(out)@ + self.input.goto_fns(i as nat),
            decreases self.input.states@.len() - i,
        {
            self.write_goto_fn(out, StateIndex(i));
            i += 1;
            assert(out@ =~= old(out)@ + self.input.goto_fns(i as nat));
        }
    }

    fn write_declarations(&mut self, out: &mut RustWrite)
        requires
            old(self).wf(),
            old(self).names_to(0),
        ensures
            final(self).input == old(self).input,
            final(self).wf(),
            final(self).named(),
            final(out)@ == old(out)@ + old(self).input.declarations(),
    {
        let ghost head = out@;
        let ghost input = self.input;
        self.write_transition_macro(out);
        self.write_value_type_defn(out);
        self.write_goto_type_defn(out);
        self.write_parser_type_defn(out);
        self.write_helper_fns(out);
        self.write_pop_fns(out);
        self.write_action_shims(out);
        self.write_parser_fn(out);
        proof {
            let blocks = seq![
                input.transition_macro(),
                input.value_type_defn(),
                input.goto_type_defn(),
                input.parser_type_defn(),
                input.helper_fns(),
                input.pop_fns(input.grammar.types.all@.len()),
                input.action_shims(input.grammar.productions().len()),
                input.parser_fn(),
            ];
            lemma_append(head, blocks[0], blocks[1]);
            lemma_append(head, blocks[0] + blocks[1], blocks[2]);
            lemma_append(head, blocks[0] + blocks[1] + blocks[2], blocks[3]);
            lemma_append(head, blocks[0] + blocks[1] + blocks[2] + blocks[3], blocks[4]);
            lemma_append(
                head,
                blocks[0] + blocks[1] + blocks[2] + blocks[3] + blocks[4],
                blocks[5],
            );
            lemma_append(
                head,
                blocks[0] + blocks[1] + blocks[2] + blocks[3] + blocks[4] + blocks[5],
                blocks[6],
            );
            lemma_append(
                head,
                blocks[0] + blocks[1] + blocks[2] + blocks[3] + blocks[4] + blocks[5] + blocks[6],
                blocks[7],
            );
        }
    }

    fn write_parser_fns(&self, out: &mut RustWrite)
        requires
            self.wf(),
            self.named(),
        ensures
            final(out)@ == old(out)@ + self.input.parser_fns(),
    {
        let ghost head = out@;
        let ghost input = self.input;
        self.write_state_fns(out);
        self.write_goto_fns(out);
        self.write_reduce_fns(out);
        proof {
            let states = input.state_fns(input.states@.len());
            let gotos = input.goto_fns(input.states@.len());
            lemma_append(head, states, gotos);
            lemma_append(
                head,
                states + gotos,
                input.reduce_fns(input.grammar.productions().len()),
            );
        }
    }

    /// Writes the whole module.
    pub fn write(&mut self, out: &mut RustWrite)
        requires
            old(self).wf(),
            old(self).names_to(0),
        ensures
            final(self).input == old(self).input,
            final(self).wf(),
            final(self).named(),
            final(out)@ == old(out)@ + old(self).input.module(),
    {
        let ghost head = out@;
        let ghost input = self.input;
        out.write_lines(&self.input.frame.module_open);
        self.write_declarations(out);
        self.write_parser_fns(out);
        out.write_lines(&self.input.frame.module_close);
        proof {
            let open = views(input.frame.module_open@);
            lemma_append(head, open, input.declarations());
            lemma_append(head, open + input.declarations(), input.parser_fns());
            lemma_append(
                head,
                open + input.declarations() + input.parser_fns(),
                views(input.frame.module_close@),
            );
        }
    }
}

/// Compiles an automaton to a tail-calling parser.
pub fn compile<'grammar>(
    grammar: &'grammar Grammar,
    user_start_symbol: NonterminalString,
    start_symbol: NonterminalString,
    states: &[Lr1State<'grammar>],
    action_module: &str,
    frame: &Frame,
    emit_comments: bool,
    out: &mut RustWrite,
)
    requires
        (Input {
            grammar,
            user_start_symbol,
            start_symbol,
            states,
            action_module,
            frame,
            emit_comments,
        }).wf(),
    ensures
        final(out)@ == old(out)@ + (Input {
            grammar,
            user_start_symbol,
            start_symbol,
            states,
            action_module,
            frame,
            emit_comments,
        }).module(),
{
    let mut tail_call = CodeGenerator::new_tail_call(
        grammar,
        user_start_symbol,
        start_symbol,
        states,
        action_module,
        frame,
        emit_comments,
    );
    tail_call.write(out);
}

} // verus!
