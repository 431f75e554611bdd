//! Structured parse errors.
//!
//! Parsing is all-or-nothing: the first violation of the grammar aborts the
//! whole translation with an error that pinpoints the offending token and
//! names the construct that was expected there.

use vstd::prelude::*;

verus! {

/// The construct the parser expected at the point of failure.
#[derive(Clone, Copy, PartialEq, Eq, Structural, Debug)]
pub enum Expected {
    /// A nonempty type reference before the keyword `with`.
    TypeReference,
    /// The keyword `with` after the type reference.
    KeywordWith,
    /// A nonempty expression.
    Expression,
    /// A `,` token.
    Comma,
    /// The keyword `assert` after the input expression.
    KeywordAssert,
    /// A `{ ... }` group holding the assertion list.
    BraceGroup,
    /// One of the assertion keywords `eq` or `ne`.
    AssertionKeyword,
    /// A `[ ... ]` group holding an assertion's two arguments.
    BracketGroup,
    /// A bare path or a call in the first position of `eq [...]`.
    FieldAccessing,
    /// The end of the stream or of the enclosing group.
    End,
}

/// A parse error: the index of the offending token (the length of the stream
/// when the stream ended too early) and what was expected there.
#[derive(Clone, Copy, PartialEq, Eq, Structural, Debug)]
pub struct ParseError {
    pub pos: usize,
    pub expected: Expected,
}

/// The model of a parse error, with an unbounded position.
pub struct SpecError {
    pub pos: int,
    pub expected: Expected,
}

impl View for ParseError {
    type V = SpecError;

    open spec fn view(&self) -> SpecError {
        SpecError { pos: self.pos as int, expected: self.expected }
    }
}

/// The diagnostic text for each expected construct.
pub open spec fn spec_message(e: Expected) -> Seq<char> {
    match e {
        Expected::TypeReference => "expected a type reference"@,
        Expected::KeywordWith => "expected `with`"@,
        Expected::Expression => "expected an expression"@,
        Expected::Comma => "expected `,`"@,
        Expected::KeywordAssert => "expected `assert`"@,
        Expected::BraceGroup => "expected curly braces"@,
        Expected::AssertionKeyword => "expected `eq` or `ne`"@,
        Expected::BracketGroup => "expected square brackets"@,
        Expected::FieldAccessing => "expected field accessing"@,
        Expected::End => "expected end of input"@,
    }
}

impl ParseError {
    /// The diagnostic text naming the expected construct.
    pub fn message(&self) -> (r: String)
        ensures
            r@ == spec_message(self.expected),
    {
        let m: &str = match self.expected {
            Expected::TypeReference => "expected a type reference",
            Expected::KeywordWith => "expected `with`",
            Expected::Expression => "expected an expression",
            Expected::Comma => "expected `,`",
            Expected::KeywordAssert => "expected `assert`",
            Expected::BraceGroup => "expected curly braces",
            Expected::AssertionKeyword => "expected `eq` or `ne`",
            Expected::BracketGroup => "expected square brackets",
            Expected::FieldAccessing => "expected field accessing",
            Expected::End => "expected end of input",
        };
        m.to_owned()
    }
}

} // verus!
