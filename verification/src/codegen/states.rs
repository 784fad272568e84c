//! The functions of the states: one that dispatches on the lookahead, and one
//! that dispatches on the nonterminal that was just reduced.
use crate::codegen::generator::CodeGenerator;
use crate::codegen::groups::{
    group_reductions, group_views, grouped, with_token, with_tokens, Group, ReductionGroup,
};
use crate::codegen::input::Input;
use crate::grammar::{NonterminalString, Pattern, Production, ProductionView, Symbol, TerminalString};
use crate::lr1::{Lr1State, Reduction, StateIndex, Token};
use crate::rust_write::RustWrite;
use crate::text::{decimal, decimal_text, join, join_text, lemma_append, views, Line};
use vstd::pervasive::unreached;
use vstd::prelude::*;

verus! {

impl<'a, 'grammar> Input<'a, 'grammar> {
    /// The pattern of terminal `t`.
    pub open spec fn pattern(self, t: TerminalString) -> Pattern {
        self.grammar.terminals@[t.0 as int].pattern
    }

    /// A pattern for tokens of terminal `t` that extracts no data.
    pub open spec fn terminal_pattern(self, t: TerminalString) -> Line {
        let pattern = self.pattern(t).filled(
            Seq::new(self.pattern(t).rest@.len(), |i: int| "_"@),
        );
        "(_, "@ + pattern + ", _)"@
    }

    /// The variables for the data of a token, one for each hole of its pattern.
    pub open spec fn token_names(self, holes: nat) -> Seq<Line> {
        Seq::new(holes, |i: int| self.prefix() + "tok"@ + decimal(i as nat))
    }

    /// A pattern for tokens of terminal `t` that extracts their data.
    pub open spec fn extracting_pattern(self, t: TerminalString) -> Line {
        let p = self.prefix();
        let holes = self.pattern(t).rest@.len();
        let pattern = self.pattern(t).filled(self.token_names(holes));
        if holes == 0 {
            p + "tok @ "@ + pattern
        } else {
            pattern
        }
    }

    /// The value of a token of terminal `t`: the token itself where its pattern
    /// chooses no data, else that data.
    pub open spec fn token_content(self, t: TerminalString) -> Line {
        let p = self.prefix();
        let holes = self.pattern(t).rest@.len();
        let names = self.token_names(holes);
        let list = join(", "@, names);
        if holes == 0 {
            p + "tok"@
        } else if holes == 1 {
            names[0]
        } else {
            "("@ + list + ")"@
        }
    }

    /// Opens the arm that shifts terminal `t`, and binds the shifted symbol.
    pub open spec fn terminal_arm(self, t: TerminalString) -> Seq<Line> {
        let p = self.prefix();
        let variant = self.variant_for(Symbol::Terminal(t));
        let pattern = self.extracting_pattern(t);
        let content = self.token_content(t);
        seq![
            "Some(("@ + p + "loc1, "@ + pattern + ", "@ + p + "loc2)) => {"@,
            "let "@ + p + "sym = ("@ + p + "loc1, "@ + p + "Symbol::"@ + variant + "("@
                + content + "), "@ + p + "loc2);"@,
        ]
    }

    /// The arm that shifts terminal `t` in state `state` and goes on to `target`.
    pub open spec fn shift_arm(self, state: int, t: TerminalString, target: StateIndex) -> Seq<
        Line,
    > {
        let p = self.prefix();
        let goto = self.goto_name(state as nat);
        let phantom = self.phantom_expr();
        self.terminal_arm(t) + seq![
            p + "parser."@ + p + "stack.push(("@ + p + "sym, "@ + p + "Goto("@ + goto + ")));"@,
            "match "@ + p + "next_token(&mut "@ + p + "parser."@ + p + "tokens, "@ + phantom
                + ") {"@,
            "Ok("@ + p + "la) => "@ + p + "parser."@ + p + "lookahead = "@ + p + "la,"@,
            "Err("@ + p + "e) => { "@ + p + "parser."@ + p + "result = Some(Err("@ + p
                + "e)); return; }"@,
            "}"@,
            self.transition(self.state_name(target.0 as nat)),
            "}"@,
        ]
    }

    /// The arms for the first `n` shifts of state `state`.
    pub open spec fn shift_arms(self, state: int, n: nat) -> Seq<Line>
        decreases n,
    {
        if n == 0 {
            seq![]
        } else {
            let (t, target) = self.states@[state].shifts@[n - 1];
            self.shift_arms(state, (n - 1) as nat) + self.shift_arm(state, t, target)
        }
    }

    /// The pattern for a token of lookahead. There is none for errors.
    pub open spec fn token_pattern(self, token: Token) -> Line {
        match token {
            Token::Terminal(t) => "Some("@ + self.terminal_pattern(t) + ")"@,
            Token::Eof => "None"@,
            Token::Error => seq![],
        }
    }

    /// The patterns of an arm, one line each; the last one opens the arm.
    pub open spec fn arm_patterns(self, tokens: Seq<Token>) -> Seq<Line> {
        Seq::new(
            tokens.len(),
            |i: int|
                self.token_pattern(tokens[i]) + if i < tokens.len() - 1 {
                    " |"@
                } else {
                    " => {"@
                },
        )
    }

    /// What state `state` does to reduce `production`.
    pub open spec fn reduction(self, state: int, production: ProductionView) -> Seq<Line> {
        let p = self.prefix();
        let restore = p + "parser."@ + p + "lookahead = "@ + p + "lookahead;"@;
        if production.nonterminal == self.start_symbol {
            self.accept(production)
        } else if production.symbols.len() == 0 {
            seq![restore] + self.empty_reduce(state, production)
        } else {
            seq![restore, self.transition(self.reduce_name(production))]
        }
    }

    /// The arm for a group of tokens that trigger the same reduction.
    pub open spec fn reduce_arm(self, state: int, group: Group) -> Seq<Line> {
        self.arm_patterns(group.tokens) + self.reduction(state, group.production) + seq!["}"@]
    }

    /// The reductions of state `state`, by production.
    pub open spec fn groups(self, state: int) -> Seq<Group> {
        let reductions = self.states@[state].reductions@;
        grouped(reductions, reductions.len())
    }

    /// The arms for the first `n` groups of reductions of state `state`.
    pub open spec fn reduce_arms(self, state: int, n: nat) -> Seq<Line>
        decreases n,
    {
        if n == 0 {
            seq![]
        } else {
            self.reduce_arms(state, (n - 1) as nat) + self.reduce_arm(
                state,
                self.groups(state)[n - 1],
            )
        }
    }

    /// Those of the first `n` terminals that `state` has an action for, as
    /// elements of a list.
    pub open spec fn expected(self, state: Lr1State<'grammar>, n: nat) -> Seq<Line>
        decreases n,
    {
        if n == 0 {
            seq![]
        } else {
            let before = self.expected(state, (n - 1) as nat);
            let name = self.grammar.terminals@[n - 1].name@;
            let line = "r###\""@ + name + "\"###.to_string(),"@;
            if state.accepts(TerminalString((n - 1) as usize)) {
                before.push(line)
            } else {
                before
            }
        }
    }

    /// Ends the parse with an error.
    pub open spec fn error(self, state: Lr1State<'grammar>) -> Seq<Line> {
        let p = self.prefix();
        seq![
            "#[allow(clippy::needless_raw_string_hashes)]"@,
            "let "@ + p + "expected = alloc::vec!["@,
        ] + self.expected(state, self.grammar.terminals@.len()) + seq![
            "];"@,
            p + "parser."@ + p + "result = Some(Err(match "@ + p + "lookahead {"@,
            "Some("@ + p + "token) => {"@,
            p + "lalrpop_util::ParseError::UnrecognizedToken {"@,
            "token: "@ + p + "token,"@,
            "expected: "@ + p + "expected,"@,
            "}"@,
            "}"@,
            "None => {"@,
            "let "@ + p + "location = match "@ + p + "parser."@ + p + "stack.last() {"@,
            "Some("@ + p + "entry) => ("@ + p + "entry.0).2.clone(),"@,
            "None => Default::default(),"@,
            "};"@,
            p + "lalrpop_util::ParseError::UnrecognizedEof {"@,
            "location: "@ + p + "location,"@,
            "expected: "@ + p + "expected,"@,
            "}"@,
            "}"@,
            "}));"@,
            "return;"@,
        ]
    }

    /// What stands before the arms of state `state`.
    pub open spec fn state_open(self, state: int) -> Seq<Line> {
        let p = self.prefix();
        seq![""@] + if self.emit_comments {
            self.state_comment(state)
        } else {
            seq![]
        } + self.parser_fn_header(self.state_name(state as nat)) + seq![
            "let "@ + p + "lookahead = "@ + p + "parser."@ + p + "lookahead.take();"@,
            "match "@ + p + "lookahead {"@,
        ]
    }

    /// The function of state `state`.
    pub open spec fn state_fn(self, state: int) -> Seq<Line> {
        self.state_open(state) + self.shift_arms(state, self.states@[state].shifts@.len())
            + self.reduce_arms(state, self.groups(state).len()) + seq!["_ => {"@] + self.error(
            self.states@[state],
        ) + seq!["}"@, "}"@, "}"@]
    }

    /// The functions of the first `n` states.
    pub open spec fn state_fns(self, n: nat) -> Seq<Line>
        decreases n,
    {
        if n == 0 {
            seq![]
        } else {
            self.state_fns((n - 1) as nat) + self.state_fn(n - 1)
        }
    }

    /// The arm that goes on to `target` after nonterminal `n` was reduced.
    pub open spec fn goto_arm(self, n: NonterminalString, target: StateIndex) -> Seq<Line> {
        let index = decimal(n.0 as nat);
        seq![
            index + " => {"@,
            self.transition(self.state_name(target.0 as nat)),
            "}"@,
        ]
    }

    /// The arms for the first `n` gotos of state `state`.
    pub open spec fn goto_arms(self, state: int, n: nat) -> Seq<Line>
        decreases n,
    {
        if n == 0 {
            seq![]
        } else {
            let (nt, target) = self.states@[state].gotos@[n - 1];
            self.goto_arms(state, (n - 1) as nat) + self.goto_arm(nt, target)
        }
    }

    /// What stands before the body of the goto function of state `state`.
    pub open spec fn goto_open(self, state: int) -> Seq<Line> {
        let index = decimal(state as nat);
        let comment = "// Goto function for state "@ + index;
        seq![""@] + if self.emit_comments {
            seq![comment]
        } else {
            seq![]
        } + seq!["#[allow(dead_code)]"@] + self.parser_fn_header(self.goto_name(state as nat))
    }

    /// The goto function of state `state`.
    pub open spec fn goto_fn(self, state: int) -> Seq<Line> {
        let p = self.prefix();
        let gotos = self.states@[state].gotos@.len();
        self.goto_open(state) + if gotos == 0 {
            seq![
                "unreachable!()"@,
            ]
        } else {
            seq![
                "match "@ + p + "parser."@ + p + "reduced_nt {"@,
            ] + self.goto_arms(state, gotos) + seq![
                "_ => unreachable!(),"@,
                "}"@,
            ]
        } + seq!["}"@]
    }

    /// The goto functions of the first `n` states.
    pub open spec fn goto_fns(self, n: nat) -> Seq<Line>
        decreases n,
    {
        if n == 0 {
            seq![]
        } else {
            self.goto_fns((n - 1) as nat) + self.goto_fn(n - 1)
        }
    }

    /// Whether `state` can perform the reduction of a group.
    pub open spec fn supports_group(self, state: Lr1State<'grammar>, group: Group) -> bool {
        &&& self.grammar.productions().contains(group.production)
        &&& group.tokens.len() > 0
        &&& forall|i: int|
            0 <= i < group.tokens.len() ==> self.supports_token(#[trigger] group.tokens[i])
        &&& group.production.symbols.len() == 0 ==> {
            &&& group.production.nonterminal != self.start_symbol
            &&& state.has_goto(group.production.nonterminal)
        }
    }

    pub open spec fn supports_groups(self, state: Lr1State<'grammar>, groups: Seq<Group>) -> bool {
        forall|i: int| 0 <= i < groups.len() ==> self.supports_group(state, #[trigger] groups[i])
    }

    proof fn lemma_with_token_supported(
        self,
        state: Lr1State<'grammar>,
        groups: Seq<Group>,
        production: ProductionView,
        token: Token,
    )
        requires
            self.supports_groups(state, groups),
            self.supports_group(state, Group { production, tokens: seq![token] }),
        ensures
            self.supports_groups(state, with_token(groups, production, token)),
        decreases groups.len(),
    {
        let single = Group { production, tokens: seq![token] };
        assert(single.tokens[0] == token);
        let added = with_token(groups, production, token);
        if groups.len() == 0 {
        } else if groups[0].production == production {
            let extended = Group { production, tokens: groups[0].tokens.push(token) };
            assert(self.supports_group(state, groups[0]));
            assert forall|i: int| 0 <= i < extended.tokens.len() implies self.supports_token(
                #[trigger] extended.tokens[i],
            ) by {
                if i < groups[0].tokens.len() {
                    assert(self.supports_token(groups[0].tokens[i]));
                }
            }
            assert(self.supports_group(state, extended));
        } else if production.precedes(groups[0].production) {
            assert forall|i: int| 0 <= i < added.len() implies self.supports_group(
                state,
                #[trigger] added[i],
            ) by {
                if i > 0 {
                    assert(added[i] == groups[i - 1]);
                }
            }
        } else {
            let rest = groups.drop_first();
            assert forall|i: int| 0 <= i < rest.len() implies self.supports_group(
                state,
                #[trigger] rest[i],
            ) by {
                assert(rest[i] == groups[i + 1]);
            }
            self.lemma_with_token_supported(state, rest, production, token);
            assert forall|i: int| 0 <= i < added.len() implies self.supports_group(
                state,
                #[trigger] added[i],
            ) by {
                if i > 0 {
                    assert(added[i] == with_token(rest, production, token)[i - 1]);
                }
            }
        }
    }

    proof fn lemma_with_tokens_supported(
        self,
        state: Lr1State<'grammar>,
        groups: Seq<Group>,
        reduction: Reduction<'grammar>,
        n: nat,
    )
        requires
            self.supports_groups(state, groups),
            self.supports_reduction(state, reduction),
            n <= reduction.tokens@.len(),
        ensures
            self.supports_groups(
                state,
                with_tokens(groups, reduction.production@, reduction.tokens@, n),
            ),
        decreases n,
    {
        if n > 0 {
            self.lemma_with_tokens_supported(state, groups, reduction, (n - 1) as nat);
            let token = reduction.tokens@[n - 1];
            assert(self.supports_token(token));
            self.lemma_with_token_supported(
                state,
                with_tokens(groups, reduction.production@, reduction.tokens@, (n - 1) as nat),
                reduction.production@,
                token,
            );
        }
    }

    /// A state can perform the reductions of its groups.
    proof fn lemma_grouped_supported(self, state: Lr1State<'grammar>, n: nat)
        requires
            self.supports_state(state),
            n <= state.reductions@.len(),
        ensures
            self.supports_groups(state, grouped(state.reductions@, n)),
        decreases n,
    {
        if n > 0 {
            self.lemma_grouped_supported(state, (n - 1) as nat);
            let reduction = state.reductions@[n - 1];
            assert(self.supports_reduction(state, reduction));
            self.lemma_with_tokens_supported(
                state,
                grouped(state.reductions@, (n - 1) as nat),
                reduction,
                reduction.tokens@.len(),
            );
        }
    }
}

impl<'a, 'grammar> CodeGenerator<'a, 'grammar> {
    /// Emit a pattern that matches `id` but doesn't extract any data.
    pub fn match_terminal_pattern(&self, id: TerminalString) -> (text: String)
        requires
            self.input.grammar.has_terminal(id),
        ensures
            text@ == self.input.terminal_pattern(id),
    {
        let pattern_data: &Pattern = &self.input.grammar.terminals[id.0].pattern;
        let mut fill: Vec<String> = Vec::new();
        let mut i: usize = 0;
        while i < pattern_data.rest.len()
            invariant
                i <= pattern_data.rest.len(),
                fill.len() == i,
                forall|k: int| 0 <= k < i ==> (#[trigger] fill@[k])@ == "_"@,
            decreases pattern_data.rest.len() - i,
        {
            fill.push("_".to_owned());
            i += 1;
        }
        assert(views(fill@) =~= Seq::new(pattern_data.rest@.len(), |i: int| "_"@));
        let pattern_text = pattern_data.fill(&fill);
        let pattern = pattern_text.as_str();
        "(_, ".to_owned().concat(pattern).concat(", _)")
    }

    /// Emits the arm head `Some((loc1, <pattern>, loc2)) => {` for shifting
    /// terminal `id`, plus a `let sym = ...;` binding the shifted symbol as
    /// a spanned `Symbol` value. The arm body (and closing brace) are left
    /// to the caller.
    pub fn consume_terminal_arm(&self, out: &mut RustWrite, id: TerminalString)
        requires
            self.wf(),
            self.named(),
            self.input.grammar.has_terminal(id),
        ensures
            final(out)@ == old(out)@ + self.input.terminal_arm(id),
    {
        let p = self.prefix();
        proof {
            self.lemma_symbol_named(Symbol::Terminal(id));
        }
        let variant_name = self.variant_name_for_symbol(Symbol::Terminal(id));
        let variant = variant_name.as_str();
        let pattern_data: &Pattern = &self.input.grammar.terminals[id.0].pattern;
        let mut names: Vec<String> = Vec::new();
        let mut i: usize = 0;
        while i < pattern_data.rest.len()
            invariant
                p@ == self.input.prefix(),
                i <= pattern_data.rest.len(),
                names.len() == i,
                forall|k: int|
                    0 <= k < i ==> (#[trigger] names@[k])@ == self.input.prefix() + "tok"@
                        + decimal(k as nat),
            decreases pattern_data.rest.len() - i,
        {
            let index_text = decimal_text(i);
            let index = index_text.as_str();
            names.push(p.to_owned().concat("tok").concat(index));
            i += 1;
        }
        assert(views(names@) =~= self.input.token_names(pattern_data.rest@.len()));
        let filled_text = pattern_data.fill(&names);
        let filled = filled_text.as_str();
        let list_text = join_text(", ", &names);
        let list = list_text.as_str();
        let pattern_text: String;
        let content_text: String;
        if names.is_empty() {
            // no data extracted: the variant stores the token itself
            pattern_text = p.to_owned().concat("tok @ ").concat(filled);
            content_text = p.to_owned().concat("tok");
        } else if names.len() == 1 {
            pattern_text = filled.to_owned();
            content_text = names[0].clone();
            assert(names@[0]@ == views(names@)[0]);
        } else {
            pattern_text = filled.to_owned();
            content_text = "(".to_owned().concat(list).concat(")");
        }
        let pattern = pattern_text.as_str();
        let content = content_text.as_str();
        out.writeln(
            "Some((".to_owned().concat(p).concat("loc1, ").concat(pattern).concat(", ")
                .concat(p).concat("loc2)) => {"),
        );
        out.writeln(
            "let ".to_owned().concat(p).concat("sym = (").concat(p).concat("loc1, ").concat(p)
                .concat("Symbol::").concat(variant).concat("(").concat(content).concat("), ")
                .concat(p).concat("loc2);"),
        );
        assert(out@ =~= old(out)@ + self.input.terminal_arm(id));
    }

    fn emit_shift_arm(
        &self,
        out: &mut RustWrite,
        this_index: StateIndex,
        terminal: TerminalString,
        next_index: StateIndex,
    )
        requires
            self.wf(),
            self.named(),
            self.input.grammar.has_terminal(terminal),
        ensures
            final(out)@ == old(out)@ + self.input.shift_arm(
                this_index.0 as int,
                terminal,
                next_index,
            ),
    {
        let p = self.prefix();
        self.consume_terminal_arm(out, terminal);

        // push the shifted terminal, paired with our own goto row, and
        // transfer control to the target state
        let goto_name = self.goto_name(this_index);
        let goto = goto_name.as_str();
        let phantom_expr = self.phantom_data_expr();
        let phantom = phantom_expr.as_str();
        out.writeln(
            p.to_owned().concat("parser.").concat(p).concat("stack.push((").concat(p)
                .concat("sym, ").concat(p).concat("Goto(").concat(goto).concat(")));"),
        );
        out.writeln(
            "match ".to_owned().concat(p).concat("next_token(&mut ").concat(p).concat("parser.")
                .concat(p).concat("tokens, ").concat(phantom).concat(") {"),
        );
        out.writeln(
            "Ok(".to_owned().concat(p).concat("la) => ").concat(p).concat("parser.").concat(p)
                .concat("lookahead = ").concat(p).concat("la,"),
        );
        out.writeln(
            "Err(".to_owned().concat(p).concat("e) => { ").concat(p).concat("parser.").concat(p)
                .concat("result = Some(Err(").concat(p).concat("e)); return; }"),
        );
        out.writeln("}".to_owned());
        out.writeln(self.transition(self.state_name(next_index).as_str()));
        out.writeln("}".to_owned());
        assert(out@ =~= old(out)@ + self.input.shift_arm(
            this_index.0 as int,
            terminal,
            next_index,
        ));
    }

    fn token_pattern_text(&self, token: Token) -> (text: String)
        requires
            self.input.supports_token(token),
        ensures
            text@ == self.input.token_pattern(token),
    {
        match token {
            Token::Terminal(t) => "Some(".to_owned().concat(
                self.match_terminal_pattern(t).as_str(),
            ).concat(")"),
            Token::Eof => "None".to_owned(),
            // Error recovery is not supported
            Token::Error => unreached(),
        }
    }

    fn emit_arm_patterns(&self, out: &mut RustWrite, tokens: &Vec<Token>)
        requires
            forall|i: int|
                0 <= i < tokens@.len() ==> self.input.supports_token(#[trigger] tokens@[i]),
        ensures
            final(out)@ == old(out)@ + self.input.arm_patterns(tokens@),
    {
        let mut index: usize = 0;
        let ghost lines = self.input.arm_patterns(tokens@);
        assert(out@ =~= old(out)@ + lines.take(0));
        while index < tokens.len()
            invariant
                forall|i: int|
                    0 <= i < tokens@.len() ==> self.input.supports_token(#[trigger] tokens@[i]),
                lines == self.input.arm_patterns(tokens@),
                index <= tokens.len(),
                out@ == old(out)@ + lines.take(index as int),
            decreases tokens.len() - index,
        {
            assert(self.input.supports_token(tokens@[index as int]));
            let pattern = self.token_pattern_text(tokens[index]);
            if index < tokens.len() - 1 {
                out.writeln(pattern.concat(" |"));
            } else {
                out.writeln(pattern.concat(" => {"));
            }
            index += 1;
            assert(out@ =~= old(out)@ + lines.take(index as int));
        }
        assert(lines.take(index as int) =~= lines);
    }

    fn emit_reduce_arm(
        &self,
        out: &mut RustWrite,
        this_index: StateIndex,
        production: &'grammar Production,
        tokens: &Vec<Token>,
    )
        requires
            self.wf(),
            self.named(),
            this_index.0 < self.input.states@.len(),
            self.input.supports_group(
                self.input.states@[this_index.0 as int],
                Group { production: production@, tokens: tokens@ },
            ),
        ensures
            final(out)@ == old(out)@ + self.input.reduce_arm(
                this_index.0 as int,
                Group { production: production@, tokens: tokens@ },
            ),
    {
        let p = self.prefix();
        let ghost group = Group { production: production@, tokens: tokens@ };
        assert forall|i: int| 0 <= i < tokens@.len() implies self.input.supports_token(
            #[trigger] tokens@[i],
        ) by {
            assert(self.input.supports_token(group.tokens[i]));
        }
        self.emit_arm_patterns(out, tokens);
        let ghost head = out@;
        if production.nonterminal == self.input.start_symbol {
            self.emit_accept(out, production);
        } else {
            // reducing does not consume the lookahead; put it back
            out.writeln(
                p.to_owned().concat("parser.").concat(p).concat("lookahead = ").concat(p)
                    .concat("lookahead;"),
            );
            if production.symbols.is_empty() {
                self.emit_empty_reduce(out, this_index, production);
            } else {
                // the reduce code is state-independent, so it is shared
                // between all the states performing this reduction
                out.writeln(self.transition(self.reduce_name(production).as_str()));
            }
        }
        assert(out@ =~= head + self.input.reduction(this_index.0 as int, production@));
        out.writeln("}".to_owned());
        assert(out@ =~= old(out)@ + self.input.reduce_arm(this_index.0 as int, group));
    }

    fn state_accepts(&self, this_state: &Lr1State<'grammar>, terminal: TerminalString) -> (accepts:
        bool)
        ensures
            accepts == this_state.accepts(terminal),
    {
        let mut i: usize = 0;
        while i < this_state.shifts.len()
            invariant
                i <= this_state.shifts.len(),
                forall|k: int|
                    0 <= k < i ==> (#[trigger] this_state.shifts@[k]).0 != terminal,
            decreases this_state.shifts.len() - i,
        {
            if this_state.shifts[i].0 == terminal {
                return true;
            }
            i += 1;
        }
        let token = Token::Terminal(terminal);
        let mut i: usize = 0;
        while i < this_state.reductions.len()
            invariant
                token == Token::Terminal(terminal),
                i <= this_state.reductions.len(),
                forall|k: int|
                    0 <= k < i ==> !(#[trigger] this_state.reductions@[k]).tokens@.contains(token),
            decreases this_state.reductions.len() - i,
        {
            let tokens = &this_state.reductions[i].tokens;
            let mut j: usize = 0;
            while j < tokens.len()
                invariant
                    token == Token::Terminal(terminal),
                    i < this_state.reductions.len(),
                    tokens@ == this_state.reductions@[i as int].tokens@,
                    j <= tokens.len(),
                    forall|k: int| 0 <= k < j ==> tokens@[k] != token,
                decreases tokens.len() - j,
            {
                if tokens[j] == token {
                    assert(this_state.reductions@[i as int].tokens@.contains(token));
                    return true;
                }
                j += 1;
            }
            i += 1;
        }
        false
    }

    fn emit_expected(&self, out: &mut RustWrite, this_state: &Lr1State<'grammar>)
        ensures
            final(out)@ == old(out)@ + self.input.expected(
                *this_state,
                self.input.grammar.terminals@.len(),
            ),
    {
        let grammar = self.input.grammar;
        let mut t: usize = 0;
        assert(out@ =~= old(out)@ + self.input.expected(*this_state, 0));
        while t < grammar.terminals.len()
            invariant
                grammar == self.input.grammar,
                t <= grammar.terminals.len(),
                out@ == old(out)@ + self.input.expected(*this_state, t as nat),
            decreases grammar.terminals.len() - t,
        {
            if self.state_accepts(this_state, TerminalString(t)) {
                // Try to avoid terminals escaping
                let name = grammar.terminals[t].name.as_str();
                out.writeln("r###\"".to_owned().concat(name).concat("\"###.to_string(),"));
            }
            t += 1;
            assert(out@ =~= old(out)@ + self.input.expected(*this_state, t as nat));
        }
    }

    /// The terminals which would have resulted in a successful parse in this
    /// state, and the error to return for anything else.
    pub fn emit_error(&self, out: &mut RustWrite, this_state: &Lr1State<'grammar>)
        ensures
            final(out)@ == old(out)@ + self.input.error(*this_state),
    {
        let p = self.prefix();
        out.writeln("#[allow(clippy::needless_raw_string_hashes)]".to_owned());
        out.writeln("let ".to_owned().concat(p).concat("expected = alloc::vec!["));
        self.emit_expected(out, this_state);
        out.writeln("];".to_owned());
        out.writeln(
            p.to_owned().concat("parser.").concat(p).concat("result = Some(Err(match ")
                .concat(p).concat("lookahead {"),
        );
        out.writeln("Some(".to_owned().concat(p).concat("token) => {"));
        out.writeln(p.to_owned().concat("lalrpop_util::ParseError::UnrecognizedToken {"));
        out.writeln("token: ".to_owned().concat(p).concat("token,"));
        out.writeln("expected: ".to_owned().concat(p).concat("expected,"));
        out.writeln("}".to_owned());
        out.writeln("}".to_owned());
        out.writeln("None => {".to_owned());
        // find the location of the last symbol on the stack, if any
        out.writeln(
            "let ".to_owned().concat(p).concat("location = match ").concat(p).concat("parser.")
                .concat(p).concat("stack.last() {"),
        );
        out.writeln(
            "Some(".to_owned().concat(p).concat("entry) => (").concat(p)
                .concat("entry.0).2.clone(),"),
        );
        out.writeln("None => Default::default(),".to_owned());
        out.writeln("};".to_owned());
        out.writeln(p.to_owned().concat("lalrpop_util::ParseError::UnrecognizedEof {"));
        out.writeln("location: ".to_owned().concat(p).concat("location,"));
        out.writeln("expected: ".to_owned().concat(p).concat("expected,"));
        out.writeln("}".to_owned());
        out.writeln("}".to_owned());
        out.writeln("}));".to_owned());
        out.writeln("return;".to_owned());
        assert(out@ =~= old(out)@ + self.input.error(*this_state));
    }

    fn emit_shift_arms(&self, out: &mut RustWrite, this_index: StateIndex)
        requires
            self.wf(),
            self.named(),
            this_index.0 < self.input.states@.len(),
        ensures
            final(out)@ == old(out)@ + self.input.shift_arms(
                this_index.0 as int,
                self.input.states@[this_index.0 as int].shifts@.len(),
            ),
    {
        let this_state = &self.input.states[this_index.0];
        let ghost state = this_index.0 as int;
        assert(self.input.supports_state(self.input.states@[state]));
        let mut i: usize = 0;
        assert(out@ =~= old(out)@ + self.input.shift_arms(state, 0));
        while i < this_state.shifts.len()
            invariant
                self.wf(),
                self.named(),
                state == this_index.0,
                0 <= state < self.input.states@.len(),
                *this_state == self.input.states@[state],
                self.input.supports_state(*this_state),
                i <= this_state.shifts.len(),
                out@ == old(out)@ + self.input.shift_arms(state, i as nat),
            decreases this_state.shifts.len() - i,
        {
            assert(self.input.grammar.has_terminal(this_state.shifts@[i as int].0));
            let (terminal, next_index) = this_state.shifts[i];
            self.emit_shift_arm(out, this_index, terminal, next_index);
            i += 1;
            assert(out@ =~= old(out)@ + self.input.shift_arms(state, i as nat));
        }
    }

    fn emit_reduce_arms(&self, out: &mut RustWrite, this_index: StateIndex)
        requires
            self.wf(),
            self.named(),
            this_index.0 < self.input.states@.len(),
        ensures
            final(out)@ == old(out)@ + self.input.reduce_arms(
                this_index.0 as int,
                self.input.groups(this_index.0 as int).len(),
            ),
    {
        let this_state = &self.input.states[this_index.0];
        let ghost state = this_index.0 as int;
        proof {
            assert(self.input.supports_state(self.input.states@[state]));
            self.input.lemma_grouped_supported(*this_state, this_state.reductions@.len());
        }
        let groups: Vec<ReductionGroup<'grammar>> = group_reductions(&this_state.reductions);
        let mut i: usize = 0;
        assert(out@ =~= old(out)@ + self.input.reduce_arms(state, 0));
        while i < groups.len()
            invariant
                self.wf(),
                self.named(),
                state == this_index.0,
                0 <= state < self.input.states@.len(),
                group_views(groups@) == self.input.groups(state),
                self.input.supports_groups(self.input.states@[state], self.input.groups(state)),
                i <= groups.len(),
                out@ == old(out)@ + self.input.reduce_arms(state, i as nat),
            decreases groups.len() - i,
        {
            let ghost group = self.input.groups(state)[i as int];
            assert(group == (Group {
                production: groups@[i as int].production@,
                tokens: groups@[i as int].tokens@,
            }));
            self.emit_reduce_arm(out, this_index, groups[i].production, &groups[i].tokens);
            i += 1;
            assert(out@ =~= old(out)@ + self.input.reduce_arms(state, i as nat));
        }
    }

    /// Writes the function corresponding to a given state. On entry, all the
    /// symbols making up the state's known stack prefix are on the explicit
    /// stack; the function dispatches on the lookahead, either shifting
    /// (push + tail call to the target state) or reducing (tail call to the
    /// production's shared reduce function).
    pub fn write_state_fn(&self, out: &mut RustWrite, this_index: StateIndex)
        requires
            self.wf(),
            self.named(),
            this_index.0 < self.input.states@.len(),
        ensures
            final(out)@ == old(out)@ + self.input.state_fn(this_index.0 as int),
    {
        let p = self.prefix();
        let this_state = &self.input.states[this_index.0];
        out.writeln("".to_owned());

        // Leave a comment explaining what this state is.
        if self.input.emit_comments {
            self.write_state_comment(out, this_index);
        }
        self.emit_parser_fn_header(out, self.state_name(this_index).as_str());

        // take the lookahead out of the parser struct so shift arms can
        // consume it by value; the reduce arms put it back untouched
        out.writeln(
            "let ".to_owned().concat(p).concat("lookahead = ").concat(p).concat("parser.")
                .concat(p).concat("lookahead.take();"),
        );
        out.writeln("match ".to_owned().concat(p).concat("lookahead {"));
        assert(out@ =~= old(out)@ + self.input.state_open(this_index.0 as int));
        let ghost head = old(out)@;
        let ghost open = self.input.state_open(this_index.0 as int);

        // first emit shifts:
        self.emit_shift_arms(out, this_index);

        // now emit reduces. It frequently happens that many tokens
        // trigger the same reduction, so group these by the
        // production that we are going to be reducing.
        self.emit_reduce_arms(out, this_index);

        // if we hit this, the next token is not recognized, so generate an error
        let ghost arms = out@;
        out.writeln("_ => {".to_owned());
        assert(out@ =~= arms + seq!["_ => {"@]);
        self.emit_error(out, this_state);
        let ghost body = out@;
        out.writeln("}".to_owned()); // Wildcard match case
        out.writeln("}".to_owned()); // match
        out.writeln("}".to_owned()); // fn
        assert(out@ =~= body + seq!["}"@, "}"@, "}"@]);
        proof {
            let shifts = self.input.shift_arms(this_index.0 as int, this_state.shifts@.len());
            let reduces = self.input.reduce_arms(
                this_index.0 as int,
                self.input.groups(this_index.0 as int).len(),
            );
            let error = self.input.error(*this_state);
            lemma_append(head, open, shifts);
            lemma_append(head, open + shifts, reduces);
            lemma_append(head, open + shifts + reduces, seq!["_ => {"@]);
            lemma_append(head, open + shifts + reduces + seq!["_ => {"@], error);
            lemma_append(
                head,
                open + shifts + reduces + seq!["_ => {"@] + error,
                seq!["}"@, "}"@, "}"@],
            );
        }
    }

    fn emit_goto_arms(&self, out: &mut RustWrite, this_index: StateIndex)
        requires
            self.wf(),
            this_index.0 < self.input.states@.len(),
        ensures
            final(out)@ == old(out)@ + self.input.goto_arms(
                this_index.0 as int,
                self.input.states@[this_index.0 as int].gotos@.len(),
            ),
    {
        let this_state = &self.input.states[this_index.0];
        let ghost state = this_index.0 as int;
        assert(self.input.supports_state(self.input.states@[state]));
        let mut i: usize = 0;
        assert(out@ =~= old(out)@ + self.input.goto_arms(state, 0));
        while i < this_state.gotos.len()
            invariant
                self.wf(),
                state == this_index.0,
                0 <= state < self.input.states@.len(),
                *this_state == self.input.states@[state],
                self.input.supports_state(*this_state),
                i <= this_state.gotos.len(),
                out@ == old(out)@ + self.input.goto_arms(state, i as nat),
            decreases this_state.gotos.len() - i,
        {
            assert(self.input.grammar.has_nonterminal(this_state.gotos@[i as int].0));
            let (nt, next_index) = this_state.gotos[i];
            let index_text = decimal_text(self.nonterminal_index(nt));
            let index = index_text.as_str();
            out.writeln(index.to_owned().concat(" => {"));
            out.writeln(self.transition(self.state_name(next_index).as_str()));
            out.writeln("}".to_owned());
            i += 1;
            assert(out@ =~= old(out)@ + self.input.goto_arms(state, i as nat));
        }
    }

    /// Writes the goto function for a state: dispatches on the nonterminal
    /// that was just reduced (communicated through `parser.reduced_nt`; the
    /// reduced symbol itself has already been pushed, paired with this very
    /// function) and enters the target state.
    pub fn write_goto_fn(&self, out: &mut RustWrite, this_index: StateIndex)
        requires
            self.wf(),
            this_index.0 < self.input.states@.len(),
        ensures
            final(out)@ == old(out)@ + self.input.goto_fn(this_index.0 as int),
    {
        let p = self.prefix();
        let this_state = &self.input.states[this_index.0];
        out.writeln("".to_owned());
        if self.input.emit_comments {
            let index_text = decimal_text(this_index.0);
            let index = index_text.as_str();
            out.writeln("// Goto function for state ".to_owned().concat(index));
        }
        // A goto function may be unreferenced (if its state never pushes a
        // symbol) or unreachable-but-referenced (a state that is never the
        // survivor of a reduction still names its goto row when pushing).
        out.writeln("#[allow(dead_code)]".to_owned());
        self.emit_parser_fn_header(out, self.goto_name(this_index).as_str());
        assert(out@ =~= old(out)@ + self.input.goto_open(this_index.0 as int));
        if this_state.gotos.is_empty() {
            // this state is never exposed by a reduction
            out.writeln("unreachable!()".to_owned());
        } else {
            out.writeln(
                "match ".to_owned().concat(p).concat("parser.").concat(p).concat("reduced_nt {"),
            );
            self.emit_goto_arms(out, this_index);
            out.writeln("_ => unreachable!(),".to_owned());
            out.writeln("}".to_owned());
        }
        out.writeln("}".to_owned()); // fn
        assert(out@ =~= old(out)@ + self.input.goto_fn(this_index.0 as int));
    }
}

} // verus!
