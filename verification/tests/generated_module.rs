use lalrpop::codegen::input::{Frame, Input};
use lalrpop::codegen::tail_call::compile;
use lalrpop::grammar::{
    ActionFn, Grammar, NonterminalData, NonterminalString, Pattern, Production, Span, Symbol,
    TerminalData, TerminalString, TypeData, TypeRepr, Types,
};
use lalrpop::lr1::{Lr1State, Reduction, StateIndex, Token};
use lalrpop::rust_write::RustWrite;

const A: TerminalString = TerminalString(0);
const S: NonterminalString = NonterminalString(0);
const START: NonterminalString = NonterminalString(1);

fn production(nonterminal: NonterminalString, symbols: Vec<Symbol>, action: usize) -> Production {
    Production {
        nonterminal,
        symbols,
        action: ActionFn(action),
        span: Span(0, 0),
    }
}

fn plain_type(text: &str) -> TypeData {
    TypeData {
        text: text.to_string(),
        referenced: vec![],
    }
}

/// `S = "a" S | ();` with the start symbol `__S = S;`
fn list_grammar() -> Grammar {
    Grammar {
        prefix: "__".to_string(),
        type_parameters: vec![],
        where_clauses: vec![],
        parameters: vec![],
        terminals: vec![TerminalData {
            name: "\"a\"".to_string(),
            pattern: Pattern {
                first: "Token::A".to_string(),
                rest: vec![],
            },
        }],
        nonterminals: vec![
            NonterminalData {
                name: "S".to_string(),
                productions: vec![
                    production(S, vec![Symbol::Terminal(A), Symbol::Nonterminal(S)], 1),
                    production(S, vec![], 2),
                ],
            },
            NonterminalData {
                name: "__S".to_string(),
                productions: vec![production(START, vec![Symbol::Nonterminal(S)], 0)],
            },
        ],
        fallible: vec![false, false, false],
        types: Types {
            all: vec![
                plain_type("Error"),
                plain_type("Token"),
                plain_type("Vec<u8>"),
                plain_type("usize"),
            ],
            terminal_token_type: TypeRepr(1),
            terminal_loc_type: TypeRepr(3),
            parse_error_type: TypeRepr(0),
            terminal_types: vec![None],
            nonterminal_types: vec![TypeRepr(2), TypeRepr(2)],
        },
    }
}

fn list_states(grammar: &Grammar) -> Vec<Lr1State<'_>> {
    let cons = &grammar.nonterminals[0].productions[0];
    let empty = &grammar.nonterminals[0].productions[1];
    let start = &grammar.nonterminals[1].productions[0];
    vec![
        Lr1State {
            items: vec!["__S = (*) S [EOF]".to_string()],
            shifts: vec![(A, StateIndex(2))],
            reductions: vec![Reduction {
                tokens: vec![Token::Eof],
                production: empty,
            }],
            gotos: vec![(S, StateIndex(1))],
        },
        Lr1State {
            items: vec![],
            shifts: vec![],
            reductions: vec![Reduction {
                tokens: vec![Token::Eof],
                production: start,
            }],
            gotos: vec![],
        },
        Lr1State {
            items: vec![],
            shifts: vec![(A, StateIndex(2))],
            reductions: vec![Reduction {
                tokens: vec![Token::Eof],
                production: empty,
            }],
            gotos: vec![(S, StateIndex(3))],
        },
        Lr1State {
            items: vec![],
            shifts: vec![],
            reductions: vec![Reduction {
                tokens: vec![Token::Eof],
                production: cons,
            }],
            gotos: vec![],
        },
    ]
}

fn frame() -> Frame {
    Frame {
        module_open: vec!["mod __parse__S {".to_string()],
        parser_fn_open: vec!["pub fn parse_S() {".to_string()],
        tokens: vec!["let __tokens = lexer();".to_string()],
        parser_fn_close: vec!["} // parse_S".to_string()],
        module_close: vec!["} // mod".to_string()],
    }
}

fn compiled(emit_comments: bool) -> Vec<String> {
    let grammar = list_grammar();
    let states = list_states(&grammar);
    let frame = frame();
    let mut out = RustWrite::new();
    compile(
        &grammar,
        S,
        START,
        &states,
        "super::__action",
        &frame,
        emit_comments,
        &mut out,
    );
    out.lines
}

const DECLARATIONS: &str = r###"mod __parse__S {
// Every state/goto/reduce transition below is in
// tail position and shares one signature. With
// `--cfg lalrpop_tail_call_become` (nightly, requires the crate
// to enable `#![feature(explicit_tail_calls)]`), transitions
// use `become` and the parser is guaranteed to use O(1) native
// stack. Otherwise they are sibling calls that LLVM turns into
// jumps in optimized builds.
#[allow(unused_macros)]
#[cfg(lalrpop_tail_call_become)]
macro_rules! __transition { ($call:expr) => { become $call }; }
#[allow(unused_macros)]
#[cfg(not(lalrpop_tail_call_become))]
macro_rules! __transition { ($call:expr) => { return $call }; }

#[allow(dead_code)]
enum __Symbol<>
 {
Variant0(Token),
Variant1(Vec<u8>),
}
struct __Goto<__TOKENS: Iterator<Item = Result<(usize, Token, usize), Error>>>(fn(&mut __Parser<__TOKENS>)) where ;
impl<__TOKENS: Iterator<Item = Result<(usize, Token, usize), Error>>> Copy for __Goto<__TOKENS> where  {}
impl<__TOKENS: Iterator<Item = Result<(usize, Token, usize), Error>>> Clone for __Goto<__TOKENS> where  { fn clone(&self) -> Self { *self } }
struct __Parser<__TOKENS: Iterator<Item = Result<(usize, Token, usize), Error>>> where  {
__tokens: __TOKENS,
__lookahead: Option<(usize, Token, usize)>,
__stack: alloc::vec::Vec<((usize, __Symbol<>, usize), __Goto<__TOKENS>)>,
__reduced_nt: usize,
__result: Option<Result<Vec<u8>, Error>>,
__phantom: core::marker::PhantomData<()>,
}
fn __next_token<
__TOKENS: Iterator<Item = Result<(usize, Token, usize), Error>>,
>(
__tokens: &mut __TOKENS,
_: core::marker::PhantomData<()>,
) -> Result<Option<(usize, Token, usize)>, Error>
{
match __tokens.next() {
Some(Ok(__v)) => Ok(Some(__v)),
Some(Err(__e)) => Err(__e),
None => Ok(None),
}
}

#[inline(never)]
#[allow(dead_code)]
fn __symbol_type_mismatch() -> ! {
panic!("symbol type mismatch")
}
#[allow(dead_code)]
fn __pop_Variant0<
__TOKENS: Iterator<Item = Result<(usize, Token, usize), Error>>,
>(
__stack: &mut alloc::vec::Vec<((usize, __Symbol<>, usize), __Goto<__TOKENS>)>,
) -> ((usize, Token, usize), __Goto<__TOKENS>)
{
match __stack.pop() {
Some(((__l, __Symbol::Variant0(__v), __r), __g)) => ((__l, __v, __r), __g),
_ => __symbol_type_mismatch(),
}
}

#[allow(dead_code)]
fn __pop_Variant1<
__TOKENS: Iterator<Item = Result<(usize, Token, usize), Error>>,
>(
__stack: &mut alloc::vec::Vec<((usize, __Symbol<>, usize), __Goto<__TOKENS>)>,
) -> ((usize, Vec<u8>, usize), __Goto<__TOKENS>)
{
match __stack.pop() {
Some(((__l, __Symbol::Variant1(__v), __r), __g)) => ((__l, __v, __r), __g),
_ => __symbol_type_mismatch(),
}
}

#[allow(dead_code)]
#[inline(never)]
fn __call_action0<
>(
__sym0: (usize, Token, usize),
__sym1: (usize, Vec<u8>, usize),
) -> Vec<u8>
{
super::__action::__action1::<>(__sym0, __sym1)
}

#[allow(dead_code)]
#[inline(never)]
fn __call_action1<
>(
__start: &usize,
__end: &usize,
) -> Vec<u8>
{
super::__action::__action2::<>(__start, __end)
}

#[allow(dead_code)]
#[inline(never)]
fn __call_action2<
>(
__sym0: (usize, Vec<u8>, usize),
) -> Vec<u8>
{
super::__action::__action0::<>(__sym0)
}

pub fn parse_S() {
let __tokens = lexer();
let mut __parser = __Parser {
__tokens,
__lookahead: None,
__stack: alloc::vec::Vec::with_capacity(16),
__reduced_nt: 0,
__result: None,
__phantom: core::marker::PhantomData::<()>,
};
__parser.__lookahead = __next_token(&mut __parser.__tokens, core::marker::PhantomData::<()>)?;
__state0(&mut __parser);
__parser.__result.expect("tail call parser did not produce a result")
} // parse_S"###;

const STATE_0: &str = r####"#[inline(never)]
fn __state0<
__TOKENS: Iterator<Item = Result<(usize, Token, usize), Error>>,
>(
__parser: &mut __Parser<__TOKENS>,
) -> ()
{
let __lookahead = __parser.__lookahead.take();
match __lookahead {
Some((__loc1, __tok @ Token::A, __loc2)) => {
let __sym = (__loc1, __Symbol::Variant0(__tok), __loc2);
__parser.__stack.push((__sym, __Goto(__goto0)));
match __next_token(&mut __parser.__tokens, core::marker::PhantomData::<()>) {
Ok(__la) => __parser.__lookahead = __la,
Err(__e) => { __parser.__result = Some(Err(__e)); return; }
}
__transition!(__state2(__parser))
}
None => {
__parser.__lookahead = __lookahead;
let __start = match &__parser.__lookahead {
Some(__t) => __t.0.clone(),
None => match __parser.__stack.last() {
Some(__entry) => (__entry.0).2.clone(),
None => Default::default(),
},
};
let __end = __start.clone();
let __nt = __call_action1::<>(&__start, &__end);
__parser.__stack.push(((__start, __Symbol::Variant1(__nt), __end), __Goto(__goto0)));
__transition!(__state1(__parser))
}
_ => {
#[allow(clippy::needless_raw_string_hashes)]
let __expected = alloc::vec![
r###""a""###.to_string(),
];
__parser.__result = Some(Err(match __lookahead {
Some(__token) => {
__lalrpop_util::ParseError::UnrecognizedToken {
token: __token,
expected: __expected,
}
}
None => {
let __location = match __parser.__stack.last() {
Some(__entry) => (__entry.0).2.clone(),
None => Default::default(),
};
__lalrpop_util::ParseError::UnrecognizedEof {
location: __location,
expected: __expected,
}
}
}));
return;
}
}
}"####;

const STATE_1: &str = r###"#[inline(never)]
fn __state1<
__TOKENS: Iterator<Item = Result<(usize, Token, usize), Error>>,
>(
__parser: &mut __Parser<__TOKENS>,
) -> ()
{
let __lookahead = __parser.__lookahead.take();
match __lookahead {
None => {
let (__sym0, _) = __pop_Variant1(&mut __parser.__stack);
let __start = __sym0.0.clone();
let __end = __sym0.2.clone();
let __nt = __call_action2::<>(__sym0);
__parser.__result = Some(match __lookahead {
None => Ok(__nt),
Some(__token) => Err(__lalrpop_util::ParseError::ExtraToken { token: __token }),
});
return;
}
_ => {
#[allow(clippy::needless_raw_string_hashes)]
let __expected = alloc::vec![
];
__parser.__result = Some(Err(match __lookahead {
Some(__token) => {
__lalrpop_util::ParseError::UnrecognizedToken {
token: __token,
expected: __expected,
}
}
None => {
let __location = match __parser.__stack.last() {
Some(__entry) => (__entry.0).2.clone(),
None => Default::default(),
};
__lalrpop_util::ParseError::UnrecognizedEof {
location: __location,
expected: __expected,
}
}
}));
return;
}
}
}"###;

const GOTO_0: &str = r###"#[allow(dead_code)]
#[inline(never)]
fn __goto0<
__TOKENS: Iterator<Item = Result<(usize, Token, usize), Error>>,
>(
__parser: &mut __Parser<__TOKENS>,
) -> ()
{
match __parser.__reduced_nt {
0 => {
__transition!(__state1(__parser))
}
_ => unreachable!(),
}
}"###;

const GOTO_1: &str = r###"#[allow(dead_code)]
#[inline(never)]
fn __goto1<
__TOKENS: Iterator<Item = Result<(usize, Token, usize), Error>>,
>(
__parser: &mut __Parser<__TOKENS>,
) -> ()
{
unreachable!()
}"###;

const REDUCE_0: &str = r###"// S = "a", S => ActionFn(1);
#[allow(dead_code)]
#[inline(never)]
fn __reduce0<
__TOKENS: Iterator<Item = Result<(usize, Token, usize), Error>>,
>(
__parser: &mut __Parser<__TOKENS>,
) -> ()
{
assert!(__parser.__stack.len() >= 2);
let (__sym1, _) = __pop_Variant1(&mut __parser.__stack);
let (__sym0, __goto) = __pop_Variant0(&mut __parser.__stack);
let __start = __sym0.0.clone();
let __end = __sym1.2.clone();
let __nt = __call_action0::<>(__sym0, __sym1);
__parser.__stack.push(((__start, __Symbol::Variant1(__nt), __end), __goto));
__parser.__reduced_nt = 0;
__transition!((__goto.0)(__parser))
}
} // mod"###;

/// The lines from `first` on, up to the blank line before `next`.
fn between<'a>(lines: &'a [String], first: &str, next: &str) -> &'a [String] {
    let start = lines.iter().position(|line| line == first).unwrap();
    let end = lines.iter().position(|line| line == next).unwrap();
    &lines[start..end]
}

fn position(lines: &[String], line: &str) -> usize {
    lines.iter().position(|l| l == line).unwrap()
}

#[test]
fn module_is_written_in_order() {
    let lines = compiled(false);
    let mut expected: Vec<String> = DECLARATIONS.lines().map(|l| l.to_string()).collect();
    for block in [STATE_0, STATE_1] {
        expected.push("".to_string());
        expected.extend(block.lines().map(|l| l.to_string()));
    }
    assert_eq!(lines[..expected.len()].to_vec(), expected);
    assert!(position(&lines, "fn __state1<") < position(&lines, "fn __state2<"));
    assert!(position(&lines, "fn __state2<") < position(&lines, "fn __state3<"));
    assert!(position(&lines, "fn __state3<") < position(&lines, "fn __goto0<"));
    assert!(position(&lines, "fn __goto3<") < position(&lines, "fn __reduce0<"));
    let mut tail: Vec<String> = vec!["".to_string()];
    tail.extend(REDUCE_0.lines().map(|l| l.to_string()));
    assert_eq!(lines[lines.len() - tail.len()..].to_vec(), tail);
}

#[test]
fn goto_functions_dispatch_on_the_nonterminal() {
    let lines = compiled(false);
    let mut expected: Vec<String> = Vec::new();
    for block in [GOTO_0, GOTO_1] {
        expected.push("".to_string());
        expected.extend(block.lines().map(|l| l.to_string()));
    }
    let at = position(&lines, "fn __goto0<") - 3;
    assert_eq!(lines[at..at + expected.len()].to_vec(), expected);
}

#[test]
fn states_with_actions_in_common_differ_in_their_own_names_only() {
    let lines = compiled(false);
    let state0: Vec<String> = between(&lines, "fn __state0<", "fn __state1<").to_vec();
    let state2: Vec<String> = between(&lines, "fn __state2<", "fn __state3<")
        .iter()
        .map(|line| {
            line.replace("fn __state2<", "fn __state0<")
                .replace("__goto2", "__goto0")
                .replace("!(__state3(", "!(__state1(")
        })
        .collect();
    assert_eq!(state0, state2);
}

#[test]
fn reductions_that_pop_call_the_shared_function() {
    let lines = compiled(false);
    let at = position(&lines, "fn __state3<");
    let arm: Vec<&str> = lines[at + 7..at + 12].iter().map(|l| l.as_str()).collect();
    assert_eq!(
        arm,
        vec![
            "match __lookahead {",
            "None => {",
            "__parser.__lookahead = __lookahead;",
            "__transition!(__reduce0(__parser))",
            "}",
        ]
    );
    // neither the empty production nor the start production has a function
    assert!(!lines.iter().any(|l| l == "fn __reduce1<" || l == "fn __reduce2<"));
}

#[test]
fn comments_explain_the_states() {
    let lines = compiled(true);
    let at = position(&lines, "// State 0");
    let comment: Vec<&str> = lines[at - 1..at + 9].iter().map(|l| l.as_str()).collect();
    assert_eq!(
        comment,
        vec![
            "",
            "// State 0",
            "//",
            "//     __S = (*) S [EOF]",
            "//",
            "//   \"a\" -> S2",
            "//   [EOF] -> S =  => ActionFn(2);",
            "//",
            "//     S -> S1",
            "#[inline(never)]",
        ]
    );
    let goto = position(&lines, "// Goto function for state 3");
    assert_eq!(lines[goto - 1], "");
    assert_eq!(lines[goto + 1], "#[allow(dead_code)]");
    assert_eq!(lines[goto + 3], "fn __goto3<");
}

#[test]
fn comments_are_all_that_emit_comments_adds() {
    let plain = compiled(false);
    let explained: Vec<String> = compiled(true)
        .into_iter()
        .filter(|l| !l.starts_with("//   ") && l != "//")
        .filter(|l| !l.starts_with("// State ") && !l.starts_with("// Goto function"))
        .collect();
    assert_eq!(plain, explained);
}

#[test]
fn compile_appends_to_what_is_there() {
    let grammar = list_grammar();
    let states = list_states(&grammar);
    let frame = frame();
    let mut out = RustWrite::new();
    out.writeln("// first".to_string());
    compile(&grammar, S, START, &states, "super::__action", &frame, false, &mut out);
    assert_eq!(out.lines[0], "// first");
    assert_eq!(out.lines[1..].to_vec(), compiled(false));
}

#[test]
fn an_automaton_without_states_has_no_parser_functions() {
    let grammar = list_grammar();
    let frame = frame();
    let mut out = RustWrite::new();
    compile(&grammar, S, START, &[], "super::__action", &frame, false, &mut out);
    let declarations: Vec<String> = DECLARATIONS.lines().map(|l| l.to_string()).collect();
    let mut expected = declarations;
    expected.push("".to_string());
    expected.extend(REDUCE_0.lines().map(|l| l.to_string()));
    assert_eq!(out.lines, expected);
}

fn input<'a, 'grammar>(
    grammar: &'grammar Grammar,
    states: &'a [Lr1State<'grammar>],
    frame: &'a Frame,
) -> Input<'a, 'grammar> {
    Input {
        grammar,
        user_start_symbol: S,
        start_symbol: START,
        states,
        action_module: "super::__action",
        frame,
        emit_comments: false,
    }
}

#[test]
fn a_complete_input_is_supported() {
    let grammar = list_grammar();
    let states = list_states(&grammar);
    assert!(grammar.types.is_wf());
    assert!(grammar.is_wf());
    assert!(input(&grammar, &states, &frame()).is_wf());
}

#[test]
fn error_recovery_is_not_supported() {
    let grammar = list_grammar();
    let mut states = list_states(&grammar);
    assert!(!input(&grammar, &states, &frame()).needs_error_recovery());
    states[3].reductions[0].tokens.push(Token::Error);
    assert!(input(&grammar, &states, &frame()).needs_error_recovery());
    assert!(!input(&grammar, &states, &frame()).is_wf());
}

#[test]
fn unknown_handles_are_not_supported() {
    let grammar = list_grammar();
    let frame = frame();

    let mut states = list_states(&grammar);
    states[0].shifts[0].0 = TerminalString(1);
    assert!(!input(&grammar, &states, &frame).is_wf());

    let mut states = list_states(&grammar);
    states[0].gotos[0].0 = NonterminalString(2);
    assert!(!input(&grammar, &states, &frame).is_wf());

    let mut states = list_states(&grammar);
    states[1].reductions[0].tokens[0] = Token::Terminal(TerminalString(7));
    assert!(!input(&grammar, &states, &frame).is_wf());

    // an empty production needs a goto in the state that reduces it
    let mut states = list_states(&grammar);
    states[2].gotos.clear();
    assert!(!input(&grammar, &states, &frame).is_wf());

    // a production of another grammar
    let other = production(S, vec![Symbol::Terminal(A)], 1);
    let mut states = list_states(&grammar);
    states[1].reductions[0].production = &other;
    assert!(!input(&grammar, &states, &frame).is_wf());

    let states = list_states(&grammar);
    let mut unknown_start = input(&grammar, &states, &frame);
    unknown_start.start_symbol = NonterminalString(2);
    assert!(!unknown_start.is_wf());
}

#[test]
fn targets_need_not_be_known() {
    let grammar = list_grammar();
    let mut states = list_states(&grammar);
    states[0].shifts[0].1 = StateIndex(40);
    assert!(input(&grammar, &states, &frame()).is_wf());
    let mut out = RustWrite::new();
    compile(&grammar, S, START, &states, "m", &frame(), false, &mut out);
    assert!(out.lines.iter().any(|l| l == "__transition!(__state40(__parser))"));
}

#[test]
fn grammars_with_loose_ends_are_not_supported() {
    let mut grammar = list_grammar();
    grammar.types.nonterminal_types[1] = TypeRepr(4);
    assert!(!grammar.types.is_wf());
    assert!(!grammar.is_wf());

    let mut grammar = list_grammar();
    grammar.types.terminal_types[0] = Some(TypeRepr(9));
    assert!(!grammar.is_wf());

    let mut grammar = list_grammar();
    grammar.types.terminal_types.push(None);
    assert!(grammar.types.is_wf());
    assert!(!grammar.is_wf());

    let mut grammar = list_grammar();
    grammar.fallible.pop();
    assert!(!grammar.is_wf());

    let mut grammar = list_grammar();
    grammar.nonterminals[0].productions[0].symbols[0] = Symbol::Terminal(TerminalString(1));
    assert!(!grammar.is_wf());
}

#[test]
fn transitions_are_in_tail_position() {
    let lines = compiled(true);
    let transitions: Vec<usize> = (0..lines.len())
        .filter(|&i| lines[i].starts_with("__transition!("))
        .collect();
    // two shifts, two empty reductions, a reduction that pops, two gotos, and
    // the function that reduces
    assert_eq!(transitions.len(), 8);
    for i in transitions {
        assert_eq!(lines[i + 1], "}");
    }
}

#[test]
fn functions_have_distinct_names_and_are_all_there() {
    let lines = compiled(false);
    let mut names: Vec<&str> = lines
        .iter()
        .filter_map(|line| line.strip_prefix("fn "))
        .map(|rest| rest.split(|c| c == '<' || c == '(').next().unwrap())
        .collect();
    let count = names.len();
    names.sort();
    names.dedup();
    assert_eq!(names.len(), count);
    let mut expected = vec!["__next_token", "__symbol_type_mismatch", "__reduce0"];
    expected.extend(["__pop_Variant0", "__pop_Variant1"]);
    expected.extend(["__call_action0", "__call_action1", "__call_action2"]);
    expected.extend(["__state0", "__state1", "__state2", "__state3"]);
    expected.extend(["__goto0", "__goto1", "__goto2", "__goto3"]);
    expected.sort();
    assert_eq!(names, expected);
}

#[test]
fn every_return_has_a_result() {
    let lines = compiled(false);
    for (i, line) in lines.iter().enumerate() {
        if line == "return;" {
            assert!(lines[i - 1] == "});" || lines[i - 1] == "}));");
            assert!(lines[..i].iter().rev().any(|l| l.starts_with("__parser.__result = Some(")));
        } else if line.contains("return;") {
            assert!(line.contains("__parser.__result = Some(Err(__e)); return; }"));
        }
    }
}
