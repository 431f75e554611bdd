use test_driver::{drive, Delim, Expected, ParseError, Tok};

fn id(s: &str) -> Tok {
    Tok::Ident(s.to_string())
}

fn lit(s: &str) -> Tok {
    Tok::Lit(s.to_string())
}

fn punct(c: char) -> Tok {
    Tok::Punct(c)
}

fn err_of(toks: Vec<Tok>) -> ParseError {
    drive(&toks).unwrap_err()
}

#[test]
fn missing_type_reference() {
    // `with 1, assert { eq [a, 1] }` starts at the keyword itself.
    let e = err_of(vec![
        id("with"),
        lit("1"),
        punct(','),
        id("assert"),
        Tok::Open(Delim::Brace),
        id("eq"),
        Tok::Open(Delim::Bracket),
        id("a"),
        punct(','),
        lit("1"),
        Tok::Close(Delim::Bracket),
        Tok::Close(Delim::Brace),
    ]);
    assert_eq!(e, ParseError { pos: 0, expected: Expected::TypeReference });
    assert_eq!(e.message(), "expected a type reference");
}

#[test]
fn missing_with_keyword() {
    let e = err_of(vec![id("Subject"), lit("56")]);
    assert_eq!(e, ParseError { pos: 2, expected: Expected::KeywordWith });
    assert_eq!(e.message(), "expected `with`");
}

#[test]
fn missing_comma_after_input() {
    // `T with 1 assert { eq [a, 1] }`: the only comma sits inside the braces.
    let e = err_of(vec![
        id("T"),
        id("with"),
        lit("1"),
        id("assert"),
        Tok::Open(Delim::Brace),
        id("eq"),
        Tok::Open(Delim::Bracket),
        id("a"),
        punct(','),
        lit("1"),
        Tok::Close(Delim::Bracket),
        Tok::Close(Delim::Brace),
    ]);
    assert_eq!(e, ParseError { pos: 12, expected: Expected::Comma });
    assert_eq!(e.message(), "expected `,`");
}

#[test]
fn missing_input_expression() {
    let e = err_of(vec![
        id("T"),
        id("with"),
        punct(','),
        id("assert"),
        Tok::Open(Delim::Brace),
        id("eq"),
        Tok::Open(Delim::Bracket),
        id("a"),
        punct(','),
        lit("1"),
        Tok::Close(Delim::Bracket),
        Tok::Close(Delim::Brace),
    ]);
    assert_eq!(e, ParseError { pos: 2, expected: Expected::Expression });
    assert_eq!(e.message(), "expected an expression");
}

#[test]
fn missing_assert_keyword() {
    let e = err_of(vec![
        id("T"),
        id("with"),
        lit("1"),
        punct(','),
        id("check"),
        Tok::Open(Delim::Brace),
        Tok::Close(Delim::Brace),
    ]);
    assert_eq!(e, ParseError { pos: 4, expected: Expected::KeywordAssert });
    assert_eq!(e.message(), "expected `assert`");
}

#[test]
fn missing_brace_group() {
    let e = err_of(vec![
        id("T"),
        id("with"),
        lit("1"),
        punct(','),
        id("assert"),
        Tok::Open(Delim::Bracket),
        Tok::Close(Delim::Bracket),
    ]);
    assert_eq!(e, ParseError { pos: 5, expected: Expected::BraceGroup });
    assert_eq!(e.message(), "expected curly braces");
}

#[test]
fn empty_assertion_list() {
    let e = err_of(vec![
        id("T"),
        id("with"),
        lit("1"),
        punct(','),
        id("assert"),
        Tok::Open(Delim::Brace),
        Tok::Close(Delim::Brace),
    ]);
    assert_eq!(e, ParseError { pos: 6, expected: Expected::AssertionKeyword });
    assert_eq!(e.message(), "expected `eq` or `ne`");
}

#[test]
fn unknown_assertion_keyword() {
    let e = err_of(vec![
        id("T"),
        id("with"),
        lit("1"),
        punct(','),
        id("assert"),
        Tok::Open(Delim::Brace),
        id("ge"),
        Tok::Open(Delim::Bracket),
        id("a"),
        punct(','),
        lit("1"),
        Tok::Close(Delim::Bracket),
        Tok::Close(Delim::Brace),
    ]);
    assert_eq!(e, ParseError { pos: 6, expected: Expected::AssertionKeyword });
}

#[test]
fn missing_bracket_group() {
    let e = err_of(vec![
        id("T"),
        id("with"),
        lit("1"),
        punct(','),
        id("assert"),
        Tok::Open(Delim::Brace),
        id("eq"),
        lit("5"),
        Tok::Close(Delim::Brace),
    ]);
    assert_eq!(e, ParseError { pos: 7, expected: Expected::BracketGroup });
    assert_eq!(e.message(), "expected square brackets");
}

#[test]
fn missing_expected_value() {
    // `eq [a]`: the bracket group holds no comma.
    let e = err_of(vec![
        id("T"),
        id("with"),
        lit("1"),
        punct(','),
        id("assert"),
        Tok::Open(Delim::Brace),
        id("eq"),
        Tok::Open(Delim::Bracket),
        id("a"),
        Tok::Close(Delim::Bracket),
        Tok::Close(Delim::Brace),
    ]);
    assert_eq!(e, ParseError { pos: 9, expected: Expected::Comma });
}

#[test]
fn missing_first_argument() {
    // `eq [, 2]`
    let e = err_of(vec![
        id("T"),
        id("with"),
        lit("1"),
        punct(','),
        id("assert"),
        Tok::Open(Delim::Brace),
        id("eq"),
        Tok::Open(Delim::Bracket),
        punct(','),
        lit("2"),
        Tok::Close(Delim::Bracket),
        Tok::Close(Delim::Brace),
    ]);
    assert_eq!(e, ParseError { pos: 8, expected: Expected::Expression });
}

#[test]
fn third_argument_is_rejected() {
    // `eq [a, 2, 3]`
    let e = err_of(vec![
        id("T"),
        id("with"),
        lit("1"),
        punct(','),
        id("assert"),
        Tok::Open(Delim::Brace),
        id("eq"),
        Tok::Open(Delim::Bracket),
        id("a"),
        punct(','),
        lit("2"),
        punct(','),
        lit("3"),
        Tok::Close(Delim::Bracket),
        Tok::Close(Delim::Brace),
    ]);
    assert_eq!(e, ParseError { pos: 11, expected: Expected::End });
    assert_eq!(e.message(), "expected end of input");
}

#[test]
fn trailing_tokens_after_braces() {
    let e = err_of(vec![
        id("T"),
        id("with"),
        lit("1"),
        punct(','),
        id("assert"),
        Tok::Open(Delim::Brace),
        id("eq"),
        Tok::Open(Delim::Bracket),
        id("a"),
        punct(','),
        lit("1"),
        Tok::Close(Delim::Bracket),
        Tok::Close(Delim::Brace),
        id("junk"),
    ]);
    assert_eq!(e, ParseError { pos: 13, expected: Expected::End });
}

#[test]
fn trailing_comma_in_assertion_list_is_allowed() {
    // `T with 1, assert { ne [a, 1], }`
    let out = drive(&vec![
        id("T"),
        id("with"),
        lit("1"),
        punct(','),
        id("assert"),
        Tok::Open(Delim::Brace),
        id("ne"),
        Tok::Open(Delim::Bracket),
        id("a"),
        punct(','),
        lit("1"),
        Tok::Close(Delim::Bracket),
        punct(','),
        Tok::Close(Delim::Brace),
    ])
    .unwrap();
    assert_eq!(
        out,
        "let constructed : T = 1 . into ( ) ; \
         assert_ne ! ( constructed . a , 1 ) ; \
         println ! ( \"test {:>10} with {:>10}  --> All assertions passed.\" , stringify ! ( T ) , stringify ! ( 1 ) ) ;"
    );
}
