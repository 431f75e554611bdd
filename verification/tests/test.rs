use test_driver::{drive, Delim, Tok};

struct Subject {
    field: i32,
}

impl Subject {
    fn call(&self) -> i32 {
        42
    }
}

impl From<i32> for Subject {
    fn from(_: i32) -> Self {
        Subject { field: 42 }
    }
}

fn id(s: &str) -> Tok {
    Tok::Ident(s.to_string())
}

fn lit(s: &str) -> Tok {
    Tok::Lit(s.to_string())
}

fn punct(c: char) -> Tok {
    Tok::Punct(c)
}

/// `Subject with 56, assert { eq [call(), 42], eq [field, 42] }`
fn subject_invocation() -> Vec<Tok> {
    vec![
        id("Subject"),
        id("with"),
        lit("56"),
        punct(','),
        id("assert"),
        Tok::Open(Delim::Brace),
        id("eq"),
        Tok::Open(Delim::Bracket),
        id("call"),
        Tok::Open(Delim::Paren),
        Tok::Close(Delim::Paren),
        punct(','),
        lit("42"),
        Tok::Close(Delim::Bracket),
        punct(','),
        id("eq"),
        Tok::Open(Delim::Bracket),
        id("field"),
        punct(','),
        lit("42"),
        Tok::Close(Delim::Bracket),
        Tok::Close(Delim::Brace),
    ]
}

/// `String with "abc", assert { ne [len(), 2], eq [len(), 4], eq [self, "abc"] }`
fn string_invocation() -> Vec<Tok> {
    vec![
        id("String"),
        id("with"),
        lit("\"abc\""),
        punct(','),
        id("assert"),
        Tok::Open(Delim::Brace),
        id("ne"),
        Tok::Open(Delim::Bracket),
        id("len"),
        Tok::Open(Delim::Paren),
        Tok::Close(Delim::Paren),
        punct(','),
        lit("2"),
        Tok::Close(Delim::Bracket),
        punct(','),
        id("eq"),
        Tok::Open(Delim::Bracket),
        id("len"),
        Tok::Open(Delim::Paren),
        Tok::Close(Delim::Paren),
        punct(','),
        lit("4"),
        Tok::Close(Delim::Bracket),
        punct(','),
        id("eq"),
        Tok::Open(Delim::Bracket),
        id("self"),
        punct(','),
        lit("\"abc\""),
        Tok::Close(Delim::Bracket),
        Tok::Close(Delim::Brace),
    ]
}

const SUBJECT_EXPANSION: &str = "let constructed : Subject = 56 . into ( ) ; \
assert_eq ! ( constructed . call ( ) , 42 , \"testing eq [{}, {}]\" , stringify ! ( call ( ) ) , 42 ) ; \
assert_eq ! ( constructed . field , 42 , \"testing eq [{}, {}]\" , stringify ! ( field ) , 42 ) ; \
println ! ( \"test {:>10} with {:>10}  --> All assertions passed.\" , stringify ! ( Subject ) , stringify ! ( 56 ) ) ;";

const STRING_EXPANSION: &str = "let constructed : String = \"abc\" . into ( ) ; \
assert_ne ! ( constructed . len ( ) , 2 ) ; \
assert_eq ! ( constructed . len ( ) , 4 , \"testing eq [{}, {}]\" , stringify ! ( len ( ) ) , 4 ) ; \
assert_eq ! ( constructed , \"abc\" , \"testing eq [{}, {}]\" , stringify ! ( ) , \"abc\" ) ; \
println ! ( \"test {:>10} with {:>10}  --> All assertions passed.\" , stringify ! ( String ) , stringify ! ( \"abc\" ) ) ;";

#[test]
fn test() {
    let expansion = drive(&subject_invocation()).unwrap();
    assert_eq!(expansion, SUBJECT_EXPANSION);
    // What the expansion does when the host runs it:
    let constructed: Subject = 56.into();
    assert_eq!(constructed.call(), 42);
    assert_eq!(constructed.field, 42);

    let expansion = drive(&string_invocation()).unwrap();
    assert_eq!(expansion, STRING_EXPANSION);
    let constructed: String = "abc".into();
    assert_ne!(constructed.len(), 2);
    assert_eq!(constructed, "abc");
}

#[test]
fn subject_scenario_emits_two_checks_then_report() {
    let driver = test_driver::Driver::parse(&subject_invocation()).unwrap();
    assert_eq!(driver.assertions.len(), 2);
    assert!(matches!(&driver.assertions[0], test_driver::Assertion::EQ(_)));
    assert!(matches!(&driver.assertions[1], test_driver::Assertion::EQ(_)));
    let text = test_driver::token::render(&driver.emit());
    assert_eq!(text, SUBJECT_EXPANSION);
}

#[test]
fn string_scenario_keeps_declaration_order() {
    let driver = test_driver::Driver::parse(&string_invocation()).unwrap();
    assert_eq!(driver.assertions.len(), 3);
    assert!(matches!(&driver.assertions[0], test_driver::Assertion::NE(_)));
    assert!(matches!(&driver.assertions[1], test_driver::Assertion::EQ(_)));
    assert!(matches!(&driver.assertions[2], test_driver::Assertion::EQ(_)));
    // The third assertion compares the whole constructed value.
    match &driver.assertions[2] {
        test_driver::Assertion::EQ(eq) => {
            assert!(matches!(eq.path, test_driver::AssertPath::Whole));
        }
        _ => unreachable!(),
    }
    let text = test_driver::token::render(&driver.emit());
    assert_eq!(text, STRING_EXPANSION);
}

#[test]
fn emission_is_deterministic() {
    let a = drive(&string_invocation()).unwrap();
    let b = drive(&string_invocation()).unwrap();
    assert_eq!(a, b);
    let c = drive(&subject_invocation()).unwrap();
    let d = drive(&subject_invocation()).unwrap();
    assert_eq!(c, d);
}

#[test]
fn binary_expression_in_eq_is_rejected() {
    // `Subject with 56, assert { eq [1 + 1, 2] }`
    let toks = vec![
        id("Subject"),
        id("with"),
        lit("56"),
        punct(','),
        id("assert"),
        Tok::Open(Delim::Brace),
        id("eq"),
        Tok::Open(Delim::Bracket),
        lit("1"),
        punct('+'),
        lit("1"),
        punct(','),
        lit("2"),
        Tok::Close(Delim::Bracket),
        Tok::Close(Delim::Brace),
    ];
    let err = drive(&toks).unwrap_err();
    assert_eq!(err.expected, test_driver::Expected::FieldAccessing);
    assert_eq!(err.pos, 8);
    assert_eq!(err.message(), "expected field accessing");
}

#[test]
fn ne_accepts_any_expression_and_qualifies_it() {
    // `T with 1, assert { ne [1 + 1, 2] }`: the inequality path is never
    // classified; it is always emitted behind a member access.
    let toks = vec![
        id("T"),
        id("with"),
        lit("1"),
        punct(','),
        id("assert"),
        Tok::Open(Delim::Brace),
        id("ne"),
        Tok::Open(Delim::Bracket),
        lit("1"),
        punct('+'),
        lit("1"),
        punct(','),
        lit("2"),
        Tok::Close(Delim::Bracket),
        Tok::Close(Delim::Brace),
    ];
    let text = drive(&toks).unwrap();
    assert_eq!(
        text,
        "let constructed : T = 1 . into ( ) ; \
         assert_ne ! ( constructed . 1 + 1 , 2 ) ; \
         println ! ( \"test {:>10} with {:>10}  --> All assertions passed.\" , stringify ! ( T ) , stringify ! ( 1 ) ) ;"
    );
}
