//! The comments that explain the states.
use crate::codegen::generator::CodeGenerator;
use crate::codegen::input::Input;
use crate::grammar::Symbol;
use crate::lr1::{Lr1State, StateIndex, Token};
use crate::rust_write::RustWrite;
use crate::text::{decimal, decimal_text, join, join_text, views, Line};
use vstd::prelude::*;

verus! {

impl<'a, 'grammar> Input<'a, 'grammar> {
    /// A token, as it is shown in comments.
    pub open spec fn token_text(self, token: Token) -> Line {
        match token {
            Token::Eof => "EOF"@,
            Token::Error => "Error"@,
            Token::Terminal(t) => self.grammar.name_of(Symbol::Terminal(t)),
        }
    }

    /// A set of tokens, as it is shown in comments.
    pub open spec fn tokens_text(self, tokens: Seq<Token>) -> Line {
        let list = join(", "@, Seq::new(tokens.len(), |i: int| self.token_text(tokens[i])));
        "["@ + list + "]"@
    }

    /// The comment lines for the items of a state.
    pub open spec fn item_comments(self, state: Lr1State<'grammar>) -> Seq<Line> {
        Seq::new(state.items@.len(), |i: int| "//     "@ + state.items@[i]@)
    }

    /// The comment lines for the shifts of a state.
    pub open spec fn shift_comments(self, state: Lr1State<'grammar>) -> Seq<Line> {
        Seq::new(
            state.shifts@.len(),
            |i: int|
                "//   "@ + self.grammar.name_of(Symbol::Terminal(state.shifts@[i].0)) + " -> S"@
                    + decimal(state.shifts@[i].1.0 as nat),
        )
    }

    /// The comment lines for the reductions of a state.
    pub open spec fn reduction_comments(self, state: Lr1State<'grammar>) -> Seq<Line> {
        Seq::new(
            state.reductions@.len(),
            |i: int|
                "//   "@ + self.tokens_text(state.reductions@[i].tokens@) + " -> "@
                    + self.production_text(state.reductions@[i].production@),
        )
    }

    /// The comment lines for the gotos of a state.
    pub open spec fn goto_comments(self, state: Lr1State<'grammar>) -> Seq<Line> {
        Seq::new(
            state.gotos@.len(),
            |i: int|
                "//     "@ + self.grammar.name_of(Symbol::Nonterminal(state.gotos@[i].0)) + " -> S"@
                    + decimal(state.gotos@[i].1.0 as nat),
        )
    }

    /// The comment that explains state `state`.
    pub open spec fn state_comment(self, state: int) -> Seq<Line> {
        let this_state = self.states@[state];
        let index = decimal(state as nat);
        seq![
            "// State "@ + index,
            "//"@,
        ] + self.item_comments(this_state) + seq!["//"@] + self.shift_comments(this_state)
            + self.reduction_comments(this_state) + seq!["//"@] + self.goto_comments(this_state)
    }
}

impl<'a, 'grammar> CodeGenerator<'a, 'grammar> {
    fn token_list(&self, tokens: &Vec<Token>) -> (text: String)
        requires
            forall|i: int|
                0 <= i < tokens@.len() ==> self.input.supports_token(#[trigger] tokens@[i]),
        ensures
            text@ == self.input.tokens_text(tokens@),
    {
        let mut texts: Vec<String> = Vec::new();
        let mut i: usize = 0;
        while i < tokens.len()
            invariant
                forall|i: int|
                    0 <= i < tokens@.len() ==> self.input.supports_token(#[trigger] tokens@[i]),
                i <= tokens.len(),
                texts.len() == i,
                forall|k: int|
                    0 <= k < i ==> (#[trigger] texts@[k])@ == self.input.token_text(tokens@[k]),
            decreases tokens.len() - i,
        {
            assert(self.input.supports_token(tokens@[i as int]));
            texts.push(
                match tokens[i] {
                    Token::Eof => "EOF".to_owned(),
                    Token::Error => "Error".to_owned(),
                    Token::Terminal(t) => self.input.grammar.symbol_name(
                        Symbol::Terminal(t),
                    ).to_owned(),
                },
            );
            i += 1;
        }
        assert(views(texts@) =~= Seq::new(
            tokens@.len(),
            |i: int| self.input.token_text(tokens@[i]),
        ));
        let list_text = join_text(", ", &texts);
        let list = list_text.as_str();
        "[".to_owned().concat(list).concat("]")
    }

    fn write_item_comments(&self, out: &mut RustWrite, this_state: &Lr1State<'grammar>)
        ensures
            final(out)@ == old(out)@ + self.input.item_comments(*this_state),
    {
        let mut i: usize = 0;
        let ghost lines = self.input.item_comments(*this_state);
        assert(out@ =~= old(out)@ + lines.take(0));
        while i < this_state.items.len()
            invariant
                lines == self.input.item_comments(*this_state),
                i <= this_state.items.len(),
                out@ == old(out)@ + lines.take(i as int),
            decreases this_state.items.len() - i,
        {
            out.writeln("//     ".to_owned().concat(this_state.items[i].as_str()));
            i += 1;
            assert(out@ =~= old(out)@ + lines.take(i as int));
        }
        assert(lines.take(i as int) =~= lines);
    }

    fn write_shift_comments(&self, out: &mut RustWrite, this_state: &Lr1State<'grammar>)
        requires
            self.input.supports_state(*this_state),
        ensures
            final(out)@ == old(out)@ + self.input.shift_comments(*this_state),
    {
        let mut i: usize = 0;
        let ghost lines = self.input.shift_comments(*this_state);
        assert(out@ =~= old(out)@ + lines.take(0));
        while i < this_state.shifts.len()
            invariant
                self.input.supports_state(*this_state),
                lines == self.input.shift_comments(*this_state),
                i <= this_state.shifts.len(),
                out@ == old(out)@ + lines.take(i as int),
            decreases this_state.shifts.len() - i,
        {
            assert(self.input.grammar.has_terminal(this_state.shifts@[i as int].0));
            let terminal = self.input.grammar.symbol_name(
                Symbol::Terminal(this_state.shifts[i].0),
            );
            let target_text = decimal_text(this_state.shifts[i].1.0);
            let target = target_text.as_str();
            out.writeln("//   ".to_owned().concat(terminal).concat(" -> S").concat(target));
            i += 1;
            assert(out@ =~= old(out)@ + lines.take(i as int));
        }
        assert(lines.take(i as int) =~= lines);
    }

    fn write_reduction_comments(&self, out: &mut RustWrite, this_state: &Lr1State<'grammar>)
        requires
            self.wf(),
            self.input.supports_state(*this_state),
        ensures
            final(out)@ == old(out)@ + self.input.reduction_comments(*this_state),
    {
        let mut i: usize = 0;
        let ghost lines = self.input.reduction_comments(*this_state);
        assert(out@ =~= old(out)@ + lines.take(0));
        while i < this_state.reductions.len()
            invariant
                self.wf(),
                self.input.supports_state(*this_state),
                lines == self.input.reduction_comments(*this_state),
                i <= this_state.reductions.len(),
                out@ == old(out)@ + lines.take(i as int),
            decreases this_state.reductions.len() - i,
        {
            assert(self.input.supports_reduction(*this_state, this_state.reductions@[i as int]));
            let token_text = self.token_list(&this_state.reductions[i].tokens);
            let tokens = token_text.as_str();
            let production_text = self.production_text(this_state.reductions[i].production);
            let production = production_text.as_str();
            out.writeln("//   ".to_owned().concat(tokens).concat(" -> ").concat(production));
            i += 1;
            assert(out@ =~= old(out)@ + lines.take(i as int));
        }
        assert(lines.take(i as int) =~= lines);
    }

    fn write_goto_comments(&self, out: &mut RustWrite, this_state: &Lr1State<'grammar>)
        requires
            self.input.supports_state(*this_state),
        ensures
            final(out)@ == old(out)@ + self.input.goto_comments(*this_state),
    {
        let mut i: usize = 0;
        let ghost lines = self.input.goto_comments(*this_state);
        assert(out@ =~= old(out)@ + lines.take(0));
        while i < this_state.gotos.len()
            invariant
                self.input.supports_state(*this_state),
                lines == self.input.goto_comments(*this_state),
                i <= this_state.gotos.len(),
                out@ == old(out)@ + lines.take(i as int),
            decreases this_state.gotos.len() - i,
        {
            assert(self.input.grammar.has_nonterminal(this_state.gotos@[i as int].0));
            let nonterminal = self.input.grammar.symbol_name(
                Symbol::Nonterminal(this_state.gotos[i].0),
            );
            let target_text = decimal_text(this_state.gotos[i].1.0);
            let target = target_text.as_str();
            out.writeln("//     ".to_owned().concat(nonterminal).concat(" -> S").concat(target));
            i += 1;
            assert(out@ =~= old(out)@ + lines.take(i as int));
        }
        assert(lines.take(i as int) =~= lines);
    }

    /// Leaves a comment explaining what a state is.
    pub fn write_state_comment(&self, out: &mut RustWrite, this_index: StateIndex)
        requires
            self.wf(),
            this_index.0 < self.input.states@.len(),
        ensures
            final(out)@ == old(out)@ + self.input.state_comment(this_index.0 as int),
    {
        let this_state = &self.input.states[this_index.0];
        assert(self.input.supports_state(self.input.states@[this_index.0 as int]));
        let index_text = decimal_text(this_index.0);
        let index = index_text.as_str();
        out.writeln("// State ".to_owned().concat(index));
        out.writeln("//".to_owned());
        self.write_item_comments(out, this_state);
        out.writeln("//".to_owned());
        self.write_shift_comments(out, this_state);
        self.write_reduction_comments(out, this_state);
        out.writeln("//".to_owned());
        self.write_goto_comments(out, this_state);
        assert(out@ =~= old(out)@ + self.input.state_comment(this_index.0 as int));
    }
}

} // verus!
