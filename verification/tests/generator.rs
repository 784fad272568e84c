use lalrpop::codegen::generator::CodeGenerator;
use lalrpop::codegen::groups::group_reductions;
use lalrpop::codegen::input::Frame;
use lalrpop::grammar::{
    ActionFn, Grammar, NonterminalData, NonterminalString, Parameter, Pattern, Production, Span,
    Symbol, TerminalData, TerminalString, TypeData, TypeParameter, TypeRepr, Types, WhereClause,
};
use lalrpop::lr1::{Lr1State, Reduction, StateIndex, Token};
use lalrpop::rust_write::RustWrite;

const PLUS: TerminalString = TerminalString(0);
const NUM: TerminalString = TerminalString(1);
const PAIR: TerminalString = TerminalString(2);
const EXPR: NonterminalString = NonterminalString(0);
const TERM: NonterminalString = NonterminalString(1);
const START: NonterminalString = NonterminalString(2);

fn production(nonterminal: NonterminalString, symbols: Vec<Symbol>, action: usize) -> Production {
    Production {
        nonterminal,
        symbols,
        action: ActionFn(action),
        span: Span(0, 0),
    }
}

fn terminal(name: &str, pieces: &[&str]) -> TerminalData {
    TerminalData {
        name: name.to_string(),
        pattern: Pattern {
            first: pieces[0].to_string(),
            rest: pieces[1..].iter().map(|p| p.to_string()).collect(),
        },
    }
}

fn ty(text: &str, referenced: &[usize]) -> TypeData {
    TypeData {
        text: text.to_string(),
        referenced: referenced.to_vec(),
    }
}

/// `Expr = Expr "+" Term | Term; Term = Num | Pair | ();` over two type
/// parameters, with one parameter.
fn grammar() -> Grammar {
    let expr = Symbol::Nonterminal(EXPR);
    let term = Symbol::Nonterminal(TERM);
    Grammar {
        prefix: "__".to_string(),
        type_parameters: vec![
            TypeParameter::Lifetime("'input".to_string()),
            TypeParameter::Id("T".to_string()),
        ],
        where_clauses: vec![
            WhereClause {
                text: "T: Clone".to_string(),
                referenced: vec![1],
            },
            WhereClause {
                text: "T: Lookup<'input>".to_string(),
                referenced: vec![0, 1],
            },
        ],
        parameters: vec![Parameter {
            name: "scale".to_string(),
            ty: TypeRepr(5),
        }],
        terminals: vec![
            terminal("\"+\"", &["Tok::Plus"]),
            terminal("Num", &["Tok::Num(", ")"]),
            terminal("Pair", &["Tok::Pair(", ", ", ")"]),
        ],
        nonterminals: vec![
            NonterminalData {
                name: "Expr".to_string(),
                productions: vec![
                    production(EXPR, vec![expr, Symbol::Terminal(PLUS), term], 1),
                    production(EXPR, vec![term], 2),
                ],
            },
            NonterminalData {
                name: "Term".to_string(),
                productions: vec![
                    production(TERM, vec![Symbol::Terminal(NUM)], 3),
                    production(TERM, vec![Symbol::Terminal(PAIR)], 4),
                    production(TERM, vec![], 5),
                ],
            },
            NonterminalData {
                name: "__Expr".to_string(),
                productions: vec![production(START, vec![expr], 0)],
            },
        ],
        fallible: vec![false, true, false, false, false, true],
        types: Types {
            all: vec![
                ty("(i64, T)", &[1]),
                ty("Error", &[]),
                ty("Tok", &[]),
                ty("i64", &[]),
                ty("u32", &[]),
                ty("&'static Scale", &[]),
            ],
            terminal_token_type: TypeRepr(2),
            terminal_loc_type: TypeRepr(4),
            parse_error_type: TypeRepr(1),
            terminal_types: vec![None, Some(TypeRepr(3)), Some(TypeRepr(0))],
            nonterminal_types: vec![TypeRepr(3), TypeRepr(3), TypeRepr(3)],
        },
    }
}

fn states(grammar: &Grammar) -> Vec<Lr1State<'_>> {
    let expr = &grammar.nonterminals[0].productions;
    let term = &grammar.nonterminals[1].productions;
    let start = &grammar.nonterminals[2].productions;
    vec![
        Lr1State {
            items: vec![],
            shifts: vec![(NUM, StateIndex(1)), (PAIR, StateIndex(2))],
            reductions: vec![Reduction {
                tokens: vec![Token::Terminal(PLUS), Token::Eof],
                production: &term[2],
            }],
            gotos: vec![(EXPR, StateIndex(3)), (TERM, StateIndex(4))],
        },
        Lr1State {
            items: vec![],
            shifts: vec![],
            reductions: vec![
                Reduction {
                    tokens: vec![Token::Eof],
                    production: &term[0],
                },
                Reduction {
                    tokens: vec![Token::Terminal(NUM)],
                    production: &expr[1],
                },
                Reduction {
                    tokens: vec![Token::Terminal(PLUS), Token::Terminal(PAIR)],
                    production: &term[0],
                },
            ],
            gotos: vec![],
        },
        Lr1State {
            items: vec![],
            shifts: vec![(PLUS, StateIndex(0))],
            reductions: vec![Reduction {
                tokens: vec![Token::Eof, Token::Terminal(PAIR)],
                production: &start[0],
            }],
            gotos: vec![],
        },
    ]
}

fn empty_frame() -> Frame {
    Frame {
        module_open: vec![],
        parser_fn_open: vec![],
        tokens: vec![],
        parser_fn_close: vec![],
        module_close: vec![],
    }
}

/// A generator that has named the variants, and the lines by which it did so.
fn named<'a, 'grammar>(
    grammar: &'grammar Grammar,
    states: &'a [Lr1State<'grammar>],
    frame: &'a Frame,
) -> (CodeGenerator<'a, 'grammar>, Vec<String>) {
    let mut generator =
        CodeGenerator::new_tail_call(grammar, EXPR, START, states, "actions", frame, false);
    let mut out = RustWrite::new();
    generator.write_value_type_defn(&mut out);
    (generator, out.lines)
}

fn texts(items: &[&str]) -> Vec<String> {
    items.iter().map(|item| item.to_string()).collect()
}

const BOUND: &str = "__TOKENS: Iterator<Item = Result<(u32, Tok, u32), Error>>";

#[test]
fn symbols_carry_the_parameters_that_their_types_mention() {
    let grammar = grammar();
    let frame = empty_frame();
    let (generator, lines) = named(&grammar, &[], &frame);
    assert_eq!(
        lines,
        texts(&[
            "#[allow(dead_code)]",
            "enum __Symbol<T>",
            " where T: Clone",
            " {",
            "Variant0(Tok),",
            "Variant1(i64),",
            "Variant2((i64, T)),",
            "}",
        ])
    );
    assert_eq!(generator.spanned_symbol_type(), "(u32, __Symbol<T>, u32)");
    assert_eq!(
        generator.stack_type(),
        "alloc::vec::Vec<((u32, __Symbol<T>, u32), __Goto<'input, T, __TOKENS>)>"
    );
}

#[test]
fn symbols_carry_all_clauses_when_all_parameters_are_mentioned() {
    let mut grammar = grammar();
    grammar.types.all[3] = ty("Expr<'input>", &[0]);
    let frame = empty_frame();
    let (_, lines) = named(&grammar, &[], &frame);
    assert_eq!(lines[1], "enum __Symbol<'input, T>");
    assert_eq!(lines[2], " where T: Clone, T: Lookup<'input>");
}

#[test]
fn symbols_carry_nothing_when_nothing_is_mentioned() {
    let mut grammar = grammar();
    grammar.types.all[0] = ty("(i64, i64)", &[]);
    let frame = empty_frame();
    let (_, lines) = named(&grammar, &[], &frame);
    assert_eq!(lines[1], "enum __Symbol<>");
    assert_eq!(lines[2], " {");
}

#[test]
fn symbols_of_one_type_share_a_variant() {
    let grammar = grammar();
    let frame = empty_frame();
    let (generator, _) = named(&grammar, &[], &frame);
    let name = |symbol| generator.variant_name_for_symbol(symbol);
    assert_eq!(name(Symbol::Terminal(PLUS)), "Variant0");
    assert_eq!(name(Symbol::Terminal(NUM)), "Variant1");
    assert_eq!(name(Symbol::Terminal(PAIR)), "Variant2");
    assert_eq!(name(Symbol::Nonterminal(EXPR)), "Variant1");
    assert_eq!(name(Symbol::Nonterminal(START)), "Variant1");
}

#[test]
fn pop_functions_are_in_the_order_of_their_types() {
    let grammar = grammar();
    let frame = empty_frame();
    let (generator, _) = named(&grammar, &[], &frame);
    let mut out = RustWrite::new();
    generator.write_pop_fns(&mut out);
    let names: Vec<&String> = out.lines.iter().filter(|l| l.starts_with("fn ")).collect();
    assert_eq!(names, vec!["fn __pop_Variant2<", "fn __pop_Variant0<", "fn __pop_Variant1<"]);
    let first: Vec<String> = out.lines[..18].to_vec();
    assert_eq!(
        first,
        texts(&[
            "#[allow(dead_code)]",
            "fn __pop_Variant2<",
            "'input,",
            "T,",
            "__TOKENS: Iterator<Item = Result<(u32, Tok, u32), Error>>,",
            ">(",
            "__stack: &mut alloc::vec::Vec<((u32, __Symbol<T>, u32), __Goto<'input, T, __TOKENS>)>,",
            ") -> ((u32, (i64, T), u32), __Goto<'input, T, __TOKENS>)",
            "where",
            "T: Clone,",
            "T: Lookup<'input>,",
            "{",
            "match __stack.pop() {",
            "Some(((__l, __Symbol::Variant2(__v), __r), __g)) => ((__l, __v, __r), __g),",
            "_ => __symbol_type_mismatch(),",
            "}",
            "}",
            "",
        ])
    );
}

#[test]
fn recurring_types_mention_parameters() {
    let grammar = grammar();
    let frame = empty_frame();
    let (generator, _) = named(&grammar, &[], &frame);
    assert_eq!(generator.prefix(), "__");
    assert_eq!(generator.triple_type(), "(u32, Tok, u32)");
    assert_eq!(generator.tokens_bound(), BOUND);
    assert_eq!(generator.parser_type_decls(), format!("'input, T, {}", BOUND));
    assert_eq!(generator.parser_type_args(), "'input, T, __TOKENS");
    assert_eq!(generator.parser_where_clauses(), "T: Clone, T: Lookup<'input>");
    assert_eq!(
        generator.unified_fn_params(),
        "&'static Scale, &mut __Parser<'input, T, __TOKENS>"
    );
    assert_eq!(generator.result_type(), "Result<i64, Error>");
    assert_eq!(
        generator.phantom_data_type(),
        "core::marker::PhantomData<(&'input (), T)>"
    );
    assert_eq!(
        generator.phantom_data_expr(),
        "core::marker::PhantomData::<(&(), T)>"
    );
    assert_eq!(generator.transition("f"), "__transition!(f(scale, __parser))");
}

#[test]
fn nonterminals_are_numbered_in_order() {
    let grammar = grammar();
    let frame = empty_frame();
    let (generator, _) = named(&grammar, &[], &frame);
    assert_eq!(generator.nonterminal_index(EXPR), 0);
    assert_eq!(generator.nonterminal_index(TERM), 1);
    assert_eq!(generator.nonterminal_index(START), 2);
}

#[test]
fn productions_are_numbered_by_nonterminal() {
    let grammar = grammar();
    let frame = empty_frame();
    let (generator, _) = named(&grammar, &[], &frame);
    let mut next = 0;
    for nonterminal in &grammar.nonterminals {
        for production in &nonterminal.productions {
            assert_eq!(generator.reduce_index(production), next);
            next += 1;
        }
    }
    let plus = &grammar.nonterminals[0].productions[0];
    assert_eq!(generator.reduce_name(plus), "__reduce0");
    assert_eq!(generator.action_name(plus), "__call_action0");
    assert_eq!(generator.production_text(plus), "Expr = Expr, \"+\", Term => ActionFn(1);");
}

#[test]
fn equal_productions_share_the_last_index() {
    let mut grammar = grammar();
    grammar.nonterminals[0].productions.push(production(
        EXPR,
        vec![Symbol::Nonterminal(TERM)],
        2,
    ));
    let frame = empty_frame();
    let (generator, _) = named(&grammar, &[], &frame);
    assert_eq!(generator.reduce_index(&grammar.nonterminals[0].productions[1]), 2);
    assert_eq!(generator.reduce_index(&grammar.nonterminals[0].productions[2]), 2);
    assert_eq!(generator.reduce_index(&grammar.nonterminals[1].productions[0]), 3);
}

#[test]
fn fallible_actions_end_the_parse_with_their_error() {
    let grammar = grammar();
    let frame = empty_frame();
    let (generator, _) = named(&grammar, &[], &frame);
    let mut out = RustWrite::new();
    generator.emit_action_call(&mut out, &grammar.nonterminals[0].productions[0]);
    generator.emit_action_call(&mut out, &grammar.nonterminals[1].productions[2]);
    generator.emit_action_call(&mut out, &grammar.nonterminals[1].productions[0]);
    assert_eq!(
        out.lines,
        texts(&[
            "let __nt = match __call_action0::<T>(scale, __sym0, __sym1, __sym2) {",
            "Ok(__v) => __v,",
            "Err(__e) => { __parser.__result = Some(Err(__e)); return; }",
            "};",
            "let __nt = match __call_action4::<T>(scale, &__start, &__end) {",
            "Ok(__v) => __v,",
            "Err(__e) => { __parser.__result = Some(Err(__e)); return; }",
            "};",
            "let __nt = __call_action2::<T>(scale, __sym0);",
        ])
    );
}

#[test]
fn action_functions_pass_parameters_on() {
    let grammar = grammar();
    let frame = empty_frame();
    let (generator, _) = named(&grammar, &[], &frame);
    let mut out = RustWrite::new();
    generator.write_action_shims(&mut out);
    assert_eq!(
        out.lines[..20].to_vec(),
        texts(&[
            "#[allow(dead_code)]",
            "#[inline(never)]",
            "fn __call_action0<",
            "'input,",
            "T,",
            ">(",
            "scale: &'static Scale,",
            "__sym0: (u32, i64, u32),",
            "__sym1: (u32, Tok, u32),",
            "__sym2: (u32, i64, u32),",
            ") -> Result<i64, Error>",
            "where",
            "T: Clone,",
            "T: Lookup<'input>,",
            "{",
            "actions::__action1::<T>(scale, __sym0, __sym1, __sym2)",
            "}",
            "",
            "#[allow(dead_code)]",
            "#[inline(never)]",
        ])
    );
    assert!(out.lines.contains(&"actions::__action5::<T>(scale, __start, __end)".to_string()));
}

#[test]
fn tokens_are_taken_apart_as_their_patterns_say() {
    let grammar = grammar();
    let frame = empty_frame();
    let (generator, _) = named(&grammar, &[], &frame);
    assert_eq!(generator.match_terminal_pattern(PLUS), "(_, Tok::Plus, _)");
    assert_eq!(generator.match_terminal_pattern(NUM), "(_, Tok::Num(_), _)");
    assert_eq!(generator.match_terminal_pattern(PAIR), "(_, Tok::Pair(_, _), _)");
    let mut out = RustWrite::new();
    generator.consume_terminal_arm(&mut out, PLUS);
    generator.consume_terminal_arm(&mut out, NUM);
    generator.consume_terminal_arm(&mut out, PAIR);
    assert_eq!(
        out.lines,
        texts(&[
            "Some((__loc1, __tok @ Tok::Plus, __loc2)) => {",
            "let __sym = (__loc1, __Symbol::Variant0(__tok), __loc2);",
            "Some((__loc1, Tok::Num(__tok0), __loc2)) => {",
            "let __sym = (__loc1, __Symbol::Variant1(__tok0), __loc2);",
            "Some((__loc1, Tok::Pair(__tok0, __tok1), __loc2)) => {",
            "let __sym = (__loc1, __Symbol::Variant2((__tok0, __tok1)), __loc2);",
        ])
    );
}

#[test]
fn reductions_are_grouped_by_production() {
    let grammar = grammar();
    let states = states(&grammar);
    let groups = group_reductions(&states[1].reductions);
    assert_eq!(groups.len(), 2);
    // `Expr` comes before `Term`
    assert_eq!(groups[0].production.nonterminal, EXPR);
    assert_eq!(groups[0].tokens, vec![Token::Terminal(NUM)]);
    assert_eq!(groups[1].production.nonterminal, TERM);
    assert_eq!(
        groups[1].tokens,
        vec![Token::Eof, Token::Terminal(PLUS), Token::Terminal(PAIR)]
    );
}

#[test]
fn productions_are_ordered_by_nonterminal_then_symbols_then_action() {
    let num = Symbol::Terminal(NUM);
    let expr = Symbol::Nonterminal(EXPR);
    let ordered = vec![
        production(EXPR, vec![], 9),
        production(EXPR, vec![expr], 8),
        production(EXPR, vec![expr, num], 7),
        production(EXPR, vec![num], 3),
        production(EXPR, vec![num], 4),
        production(TERM, vec![], 0),
    ];
    for (i, a) in ordered.iter().enumerate() {
        for (j, b) in ordered.iter().enumerate() {
            assert_eq!(a.is_before(b), i < j);
            assert_eq!(a.is_same(b), i == j);
        }
    }
    let mut moved = production(TERM, vec![], 0);
    moved.span = Span(0, 1);
    assert!(ordered[5].is_before(&moved));
    assert!(!ordered[5].is_same(&moved));
}

#[test]
fn reduction_without_tokens_has_no_group() {
    let grammar = grammar();
    let reductions = vec![Reduction {
        tokens: vec![],
        production: &grammar.nonterminals[0].productions[0],
    }];
    assert_eq!(group_reductions(&reductions).len(), 0);
}

#[test]
fn states_dispatch_on_groups_of_tokens() {
    let grammar = grammar();
    let states = states(&grammar);
    let frame = empty_frame();
    let (generator, _) = named(&grammar, &states, &frame);
    let mut out = RustWrite::new();
    generator.write_state_fn(&mut out, StateIndex(1));
    let at = out.lines.iter().position(|l| l == "match __lookahead {").unwrap();
    assert_eq!(
        out.lines[at + 1..at + 11].to_vec(),
        texts(&[
            "Some((_, Tok::Num(_), _)) => {",
            "__parser.__lookahead = __lookahead;",
            "__transition!(__reduce1(scale, __parser))",
            "}",
            "None |",
            "Some((_, Tok::Plus, _)) |",
            "Some((_, Tok::Pair(_, _), _)) => {",
            "__parser.__lookahead = __lookahead;",
            "__transition!(__reduce2(scale, __parser))",
            "}",
        ])
    );
}

#[test]
fn parser_functions_share_one_signature() {
    let grammar = grammar();
    let states = states(&grammar);
    let frame = empty_frame();
    let (generator, _) = named(&grammar, &states, &frame);
    let mut out = RustWrite::new();
    generator.emit_parser_fn_header(&mut out, "f");
    assert_eq!(
        out.lines,
        texts(&[
            "#[inline(never)]",
            "fn f<",
            "'input,",
            "T,",
            "__TOKENS: Iterator<Item = Result<(u32, Tok, u32), Error>>,",
            ">(",
            "scale: &'static Scale,",
            "__parser: &mut __Parser<'input, T, __TOKENS>,",
            ") -> ()",
            "where",
            "T: Clone,",
            "T: Lookup<'input>,",
            "{",
        ])
    );
}

#[test]
fn errors_list_the_terminals_that_have_an_action() {
    let grammar = grammar();
    let states = states(&grammar);
    let frame = empty_frame();
    let (generator, _) = named(&grammar, &states, &frame);
    for (state, names) in [
        (0, vec!["\"+\"", "Num", "Pair"]),
        (1, vec!["\"+\"", "Num", "Pair"]),
        (2, vec!["\"+\"", "Pair"]),
    ] {
        let mut out = RustWrite::new();
        generator.emit_error(&mut out, &states[state]);
        let listed: Vec<String> = names
            .iter()
            .map(|name| format!("r###\"{}\"###.to_string(),", name))
            .collect();
        assert_eq!(out.lines[2..2 + listed.len()].to_vec(), listed);
        assert_eq!(out.lines[2 + listed.len()], "];");
        assert_eq!(out.lines.last().unwrap(), "return;");
    }
}

#[test]
fn the_start_production_accepts() {
    let grammar = grammar();
    let states = states(&grammar);
    let frame = empty_frame();
    let (generator, _) = named(&grammar, &states, &frame);
    let mut out = RustWrite::new();
    generator.write_state_fn(&mut out, StateIndex(2));
    let at = out.lines.iter().position(|l| l == "None |").unwrap();
    assert_eq!(
        out.lines[at..at + 12].to_vec(),
        texts(&[
            "None |",
            "Some((_, Tok::Pair(_, _), _)) => {",
            "let (__sym0, _) = __pop_Variant1(&mut __parser.__stack);",
            "let __start = __sym0.0.clone();",
            "let __end = __sym0.2.clone();",
            "let __nt = __call_action5::<T>(scale, __sym0);",
            "__parser.__result = Some(match __lookahead {",
            "None => Ok(__nt),",
            "Some(__token) => Err(__lalrpop_util::ParseError::ExtraToken { token: __token }),",
            "});",
            "return;",
            "}",
        ])
    );
}

#[test]
fn handles_are_popped_from_the_top() {
    let grammar = grammar();
    let frame = empty_frame();
    let (generator, _) = named(&grammar, &[], &frame);
    let mut out = RustWrite::new();
    generator.emit_pop_handle(&mut out, &grammar.nonterminals[0].productions[0], true);
    assert_eq!(
        out.lines,
        texts(&[
            "assert!(__parser.__stack.len() >= 3);",
            "let (__sym2, _) = __pop_Variant1(&mut __parser.__stack);",
            "let (__sym1, _) = __pop_Variant0(&mut __parser.__stack);",
            "let (__sym0, __goto) = __pop_Variant1(&mut __parser.__stack);",
            "let __start = __sym0.0.clone();",
            "let __end = __sym2.2.clone();",
        ])
    );
    let mut out = RustWrite::new();
    generator.emit_pop_handle(&mut out, &grammar.nonterminals[0].productions[1], false);
    assert_eq!(out.lines[0], "let (__sym0, _) = __pop_Variant1(&mut __parser.__stack);");
}

#[test]
fn gotos_lead_to_their_states() {
    let grammar = grammar();
    let states = states(&grammar);
    assert_eq!(states[0].find_goto(EXPR), StateIndex(3));
    assert_eq!(states[0].find_goto(TERM), StateIndex(4));
}

#[test]
fn symbols_take_the_variant_of_any_type() {
    let grammar = grammar();
    let frame = empty_frame();
    let mut generator =
        CodeGenerator::new_tail_call(&grammar, EXPR, START, &[], "actions", &frame, false);
    let mut out = RustWrite::new();
    generator.add_symbol_variant(&mut out, Symbol::Nonterminal(TERM), TypeRepr(4));
    generator.add_symbol_variant(&mut out, Symbol::Terminal(PAIR), TypeRepr(1));
    generator.add_symbol_variant(&mut out, Symbol::Terminal(NUM), TypeRepr(4));
    assert_eq!(out.lines, texts(&["Variant0(u32),", "Variant1(Error),"]));
    assert_eq!(generator.variant_name_for_symbol(Symbol::Nonterminal(TERM)), "Variant0");
    assert_eq!(generator.variant_name_for_symbol(Symbol::Terminal(PAIR)), "Variant1");
    assert_eq!(generator.variant_name_for_symbol(Symbol::Terminal(NUM)), "Variant0");
    // a symbol that comes again takes its new variant
    generator.add_symbol_variant(&mut out, Symbol::Nonterminal(TERM), TypeRepr(1));
    assert_eq!(out.lines.len(), 2);
    assert_eq!(generator.variant_name_for_symbol(Symbol::Nonterminal(TERM)), "Variant1");
    assert_eq!(generator.variant_name_for_symbol(Symbol::Terminal(NUM)), "Variant0");
}
