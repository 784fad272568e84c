use lalrpop::grammar::Pattern;
use lalrpop::rust_write::RustWrite;
use lalrpop::text::{decimal_text, join_text};

fn texts(items: &[&str]) -> Vec<String> {
    items.iter().map(|item| item.to_string()).collect()
}

#[test]
fn numbers_are_written_in_decimal() {
    for n in [0, 1, 9, 10, 42, 99, 100, 1234567890, usize::MAX] {
        assert_eq!(decimal_text(n), n.to_string());
    }
}

#[test]
fn lists_are_separated() {
    assert_eq!(join_text(", ", &texts(&[])), "");
    assert_eq!(join_text(", ", &texts(&["a"])), "a");
    assert_eq!(join_text(", ", &texts(&["a", "", "c"])), "a, , c");
}

#[test]
fn patterns_are_filled_from_the_left() {
    let none = Pattern {
        first: "Token::A".to_string(),
        rest: vec![],
    };
    assert_eq!(none.fill(&texts(&[])), "Token::A");
    let two = Pattern {
        first: "Token::B(".to_string(),
        rest: texts(&[", ", ")"]),
    };
    assert_eq!(two.fill(&texts(&["x", "_"])), "Token::B(x, _)");
}

#[test]
fn headers_list_what_they_take() {
    let mut out = RustWrite::new();
    out.write_fn_header("f", &texts(&["'a", "T"]), &texts(&["x: T"]), "u8", &texts(&[]));
    out.write_lines(&texts(&["{", "}"]));
    out.write_fn_header("g", &texts(&[]), &texts(&[]), "()", &texts(&["T: Copy", "U: Copy"]));
    let expected = [
        "fn f<", "'a,", "T,", ">(", "x: T,", ") -> u8", "{", "}", "fn g<", ">(", ") -> ()", "where",
        "T: Copy,", "U: Copy,",
    ];
    assert_eq!(out.lines, texts(&expected));
}
