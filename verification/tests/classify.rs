use test_driver::assertion::classify;
use test_driver::token::render;
use test_driver::{AssertPath, Delim, Tok};

fn id(s: &str) -> Tok {
    Tok::Ident(s.to_string())
}

fn lit(s: &str) -> Tok {
    Tok::Lit(s.to_string())
}

fn punct(c: char) -> Tok {
    Tok::Punct(c)
}

#[test]
fn bare_self_is_whole() {
    let r = classify(&vec![id("self")]);
    assert!(matches!(r, Some(AssertPath::Whole)));
}

#[test]
fn bare_path_is_field() {
    let r = classify(&vec![id("field")]);
    assert!(matches!(r, Some(AssertPath::Field(_))));
    let r = classify(&vec![id("a"), punct(':'), punct(':'), id("b")]);
    assert!(matches!(r, Some(AssertPath::Field(_))));
}

#[test]
fn qualified_self_is_a_field_not_the_whole_value() {
    // Only the bare, unqualified `self` denotes the whole constructed value.
    let r = classify(&vec![id("self"), punct(':'), punct(':'), id("x")]);
    assert!(matches!(r, Some(AssertPath::Field(_))));
}

#[test]
fn call_keeps_the_whole_expression() {
    let toks = vec![id("call"), Tok::Open(Delim::Paren), lit("7"), Tok::Close(Delim::Paren)];
    match classify(&toks) {
        Some(AssertPath::Call(kept)) => {
            assert_eq!(render(&kept), "call ( 7 )");
        }
        _ => unreachable!(),
    }
}

#[test]
fn curried_call_is_a_call() {
    let toks = vec![
        id("f"),
        Tok::Open(Delim::Paren),
        Tok::Close(Delim::Paren),
        Tok::Open(Delim::Paren),
        lit("1"),
        Tok::Close(Delim::Paren),
    ];
    assert!(matches!(classify(&toks), Some(AssertPath::Call(_))));
}

#[test]
fn other_shapes_are_refused() {
    // a binary expression
    assert!(classify(&vec![lit("1"), punct('+'), lit("1")]).is_none());
    // a member access through `.` is not a bare path
    assert!(classify(&vec![id("a"), punct('.'), id("b")]).is_none());
    // a lone literal
    assert!(classify(&vec![lit("42")]).is_none());
    // an unfinished path
    assert!(classify(&vec![id("a"), punct(':'), punct(':')]).is_none());
    // an empty run
    assert!(classify(&vec![]).is_none());
    // a group alone is not a call
    assert!(
        classify(&vec![Tok::Open(Delim::Paren), Tok::Close(Delim::Paren)]).is_none()
    );
}

#[test]
fn render_joins_tokens_with_single_spaces() {
    assert_eq!(render(&vec![]), "");
    assert_eq!(render(&vec![id("a")]), "a");
    assert_eq!(
        render(&vec![id("a"), punct(','), lit("\"x\""), Tok::Open(Delim::Brace), Tok::Close(
            Delim::Brace
        )]),
        "a , \"x\" { }"
    );
}
