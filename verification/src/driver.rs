//! The top-level record of one invocation, its parser, and the emitter.
//!
//! The surface grammar is
//!
//! ```plain
//! Driver        ::= TypeReference "with" Expression "," "assert" "{" AssertionList "}"
//! AssertionList ::= Assertion ("," Assertion)* [","]
//! Assertion     ::= "eq" "[" Expression "," Expression "]"
//!                 | "ne" "[" Expression "," Expression "]"
//! ```
//!
//! `TypeReference` and `Expression` belong to the host language's own
//! grammar and are black boxes here: a type reference is the nonempty
//! top-level token run before the keyword `with`, and an expression is a
//! nonempty top-level token run that contains no top-level comma. Parsing is
//! single-pass and all-or-nothing: the first violation aborts with a
//! [`ParseError`] and nothing is emitted.

use vstd::prelude::*;
use crate::assertion::{
    spec_check, spec_parse_assertion, Assertion, SpecAssertion,
};
use crate::error::{Expected, ParseError, SpecError};
use crate::scan::{lemma_scan_bounds, scan, spec_scan, ScanFor};
use crate::token::{append_toks, push_tok, render, spec_render, sub_toks, tview, Delim, SpecTok, Tok};

verus! {

/// One parsed invocation: the target type, the input expression, and the
/// assertions in declaration order. Built by parsing, read once by the
/// emitter, never shared and never reordered.
pub struct Driver {
    pub subject: Vec<Tok>,
    pub input: Vec<Tok>,
    pub assertions: Vec<Assertion>,
}

/// The model of a parsed invocation.
pub struct SpecDriver {
    pub subject: Seq<SpecTok>,
    pub input: Seq<SpecTok>,
    pub assertions: Seq<SpecAssertion>,
}

/// The model of an assertion sequence: each assertion replaced by its model.
pub open spec fn aview(s: Seq<Assertion>) -> Seq<SpecAssertion> {
    s.map_values(|a: Assertion| a@)
}

impl View for Driver {
    type V = SpecDriver;

    open spec fn view(&self) -> SpecDriver {
        SpecDriver {
            subject: tview(self.subject@),
            input: tview(self.input@),
            assertions: aview(self.assertions@),
        }
    }
}

// ------------------------------------------------------------------
// Parsing.
// ------------------------------------------------------------------

/// Parses the assertion list: comma-separated assertions, a trailing comma
/// allowed. `base` is the absolute position of the list's first token.
pub open spec fn spec_parse_assertions(body: Seq<SpecTok>, base: int) -> Result<
    Seq<SpecAssertion>,
    SpecError,
>
    decreases body.len(),
    via spec_parse_assertions_dec
{
    if body.len() == 0 {
        Ok(Seq::empty())
    } else {
        let k_opt = spec_scan(body, 0, 0, ScanFor::Comma);
        let item = match k_opt {
            Some(k) => body.subrange(0, k),
            None => body,
        };
        match spec_parse_assertion(item, base) {
            Err(e) => Err(e),
            Ok(a) => match k_opt {
                None => Ok(seq![a]),
                Some(k) => match spec_parse_assertions(
                    body.subrange(k + 1, body.len() as int),
                    base + k + 1,
                ) {
                    Err(e) => Err(e),
                    Ok(tail) => Ok(seq![a] + tail),
                },
            },
        }
    }
}

#[via_fn]
proof fn spec_parse_assertions_dec(body: Seq<SpecTok>, base: int) {
    lemma_scan_bounds(body, 0, 0, ScanFor::Comma);
}

/// Parses one whole invocation. The subject is the nonempty top-level run
/// before `with`; the input is the nonempty top-level run before the next
/// top-level comma; then the keyword `assert` and one brace group holding at
/// least one assertion must close the stream.
pub open spec fn spec_parse(s: Seq<SpecTok>) -> Result<SpecDriver, SpecError> {
    match spec_scan(s, 0, 0, ScanFor::KwWith) {
        None => Err(SpecError { pos: s.len() as int, expected: Expected::KeywordWith }),
        Some(iw) => if iw == 0 {
            Err(SpecError { pos: 0, expected: Expected::TypeReference })
        } else {
            let subject = s.subrange(0, iw);
            match spec_scan(s, iw + 1, 0, ScanFor::Comma) {
                None => Err(SpecError { pos: s.len() as int, expected: Expected::Comma }),
                Some(ic) => {
                    let input = s.subrange(iw + 1, ic);
                    if input.len() == 0 {
                        Err(SpecError { pos: iw + 1, expected: Expected::Expression })
                    } else if !(ic + 1 < s.len() && s[ic + 1] == SpecTok::Ident("assert"@)) {
                        Err(SpecError { pos: ic + 1, expected: Expected::KeywordAssert })
                    } else if !(ic + 2 < s.len() && s[ic + 2] == SpecTok::Open(Delim::Brace)) {
                        Err(SpecError { pos: ic + 2, expected: Expected::BraceGroup })
                    } else {
                        match spec_scan(s, ic + 3, 0, ScanFor::AnyClose) {
                            None => Err(
                                SpecError { pos: s.len() as int, expected: Expected::BraceGroup },
                            ),
                            Some(mc) => if s[mc] != SpecTok::Close(Delim::Brace) {
                                Err(SpecError { pos: mc, expected: Expected::BraceGroup })
                            } else if mc + 1 != s.len() {
                                Err(SpecError { pos: mc + 1, expected: Expected::End })
                            } else {
                                let body = s.subrange(ic + 3, mc);
                                if body.len() == 0 {
                                    Err(
                                        SpecError {
                                            pos: ic + 3,
                                            expected: Expected::AssertionKeyword,
                                        },
                                    )
                                } else {
                                    match spec_parse_assertions(body, ic + 3) {
                                        Err(e) => Err(e),
                                        Ok(aa) => Ok(
                                            SpecDriver { subject, input, assertions: aa },
                                        ),
                                    }
                                }
                            },
                        }
                    }
                },
            }
        },
    }
}

fn parse_assertions(body: &Vec<Tok>, base: usize) -> (r: Result<Vec<Assertion>, ParseError>)
    requires
        base + body@.len() <= usize::MAX,
    ensures
        match r {
            Ok(v) => spec_parse_assertions(tview(body@), base as int) == Ok::<
                Seq<SpecAssertion>,
                SpecError,
            >(aview(v@)),
            Err(e) => spec_parse_assertions(tview(body@), base as int) == Err::<
                Seq<SpecAssertion>,
                SpecError,
            >(e@),
        },
    decreases body@.len(),
{
    if body.len() == 0 {
        let v: Vec<Assertion> = Vec::new();
        proof {
            assert(aview(v@) =~= Seq::<SpecAssertion>::empty());
        }
        return Ok(v);
    }
    let k_opt = scan(body, 0, 0, ScanFor::Comma);
    let hi = match k_opt {
        Some(k) => k,
        None => body.len(),
    };
    let item = sub_toks(body, 0, hi);
    proof {
        if k_opt is None {
            assert(tview(body@).subrange(0, body@.len() as int) =~= tview(body@));
        }
    }
    let a = match Assertion::parse(&item, base) {
        Ok(a) => a,
        Err(e) => {
            return Err(e);
        },
    };
    match k_opt {
        None => {
            let mut v: Vec<Assertion> = Vec::new();
            v.push(a);
            proof {
                assert(aview(v@) =~= seq![v@[0]@]);
            }
            Ok(v)
        },
        Some(k) => {
            let rest = sub_toks(body, k + 1, body.len());
            proof {
                assert(tview(rest@).len() == rest@.len());
                assert(tview(body@).len() == body@.len());
                assert(rest@.len() == body@.len() - (k + 1));
            }
            match parse_assertions(&rest, base + k + 1) {
                Err(e) => Err(e),
                Ok(mut tail) => {
                    let ghost tailv = aview(tail@);
                    let ghost av = a@;
                    let mut v: Vec<Assertion> = Vec::new();
                    v.push(a);
                    v.append(&mut tail);
                    proof {
                        assert(aview(v@) =~= seq![av] + tailv);
                    }
                    Ok(v)
                },
            }
        },
    }
}

impl Driver {
    /// Parses one whole invocation out of a token stream; see [`spec_parse`].
    pub fn parse(toks: &Vec<Tok>) -> (r: Result<Driver, ParseError>)
        ensures
            match r {
                Ok(d) => spec_parse(tview(toks@)) == Ok::<SpecDriver, SpecError>(d@),
                Err(e) => spec_parse(tview(toks@)) == Err::<SpecDriver, SpecError>(e@),
            },
    {
        let n = toks.len();
        let iw = match scan(toks, 0, 0, ScanFor::KwWith) {
            Some(iw) => iw,
            None => {
                return Err(ParseError { pos: n, expected: Expected::KeywordWith });
            },
        };
        if iw == 0 {
            return Err(ParseError { pos: 0, expected: Expected::TypeReference });
        }
        let subject = sub_toks(toks, 0, iw);
        let ic = match scan(toks, iw + 1, 0, ScanFor::Comma) {
            Some(ic) => ic,
            None => {
                return Err(ParseError { pos: n, expected: Expected::Comma });
            },
        };
        let input = sub_toks(toks, iw + 1, ic);
        if input.len() == 0 {
            return Err(ParseError { pos: iw + 1, expected: Expected::Expression });
        }
        proof {
            if ic + 1 < toks@.len() {
                assert(tview(toks@)[ic + 1] == toks@[ic as int + 1]@);
            }
        }
        let kw_ok = ic + 1 < n && (match &toks[ic + 1] {
            Tok::Ident(s) => crate::scan::str_is(s, "assert"),
            _ => false,
        });
        if !kw_ok {
            return Err(ParseError { pos: ic + 1, expected: Expected::KeywordAssert });
        }
        proof {
            if ic + 2 < toks@.len() {
                assert(tview(toks@)[ic + 2] == toks@[ic as int + 2]@);
            }
        }
        let brace_ok = ic + 2 < n && matches!(&toks[ic + 2], Tok::Open(Delim::Brace));
        if !brace_ok {
            return Err(ParseError { pos: ic + 2, expected: Expected::BraceGroup });
        }
        let mc = match scan(toks, ic + 3, 0, ScanFor::AnyClose) {
            Some(mc) => mc,
            None => {
                return Err(ParseError { pos: n, expected: Expected::BraceGroup });
            },
        };
        proof {
            assert(tview(toks@)[mc as int] == toks@[mc as int]@);
        }
        if !matches!(&toks[mc], Tok::Close(Delim::Brace)) {
            return Err(ParseError { pos: mc, expected: Expected::BraceGroup });
        }
        if mc + 1 != n {
            return Err(ParseError { pos: mc + 1, expected: Expected::End });
        }
        let body = sub_toks(toks, ic + 3, mc);
        if body.len() == 0 {
            return Err(ParseError { pos: ic + 3, expected: Expected::AssertionKeyword });
        }
        match parse_assertions(&body, ic + 3) {
            Err(e) => Err(e),
            Ok(aa) => Ok(Driver { subject, input, assertions: aa }),
        }
    }
}

// ------------------------------------------------------------------
// Emission.
// ------------------------------------------------------------------

/// The construction statement: bind the fixed identifier `constructed` to
/// the input converted into the subject type.
pub open spec fn spec_stmt_construct(subject: Seq<SpecTok>, input: Seq<SpecTok>) -> Seq<SpecTok> {
    seq![SpecTok::Ident("let"@), SpecTok::Ident("constructed"@), SpecTok::Punct(':')] + subject
        + seq![SpecTok::Punct('=')] + input + seq![
        SpecTok::Punct('.'),
        SpecTok::Ident("into"@),
        SpecTok::Open(Delim::Paren),
        SpecTok::Close(Delim::Paren),
        SpecTok::Punct(';'),
    ]
}

/// The format literal of the success report.
pub open spec fn spec_report_msg() -> Seq<char> {
    "\"test {:>10} with {:>10}  --> All assertions passed.\""@
}

/// The closing report statement, naming the subject type and the literal
/// text of the input.
pub open spec fn spec_stmt_report(subject: Seq<SpecTok>, input: Seq<SpecTok>) -> Seq<SpecTok> {
    seq![
        SpecTok::Ident("println"@),
        SpecTok::Punct('!'),
        SpecTok::Open(Delim::Paren),
        SpecTok::Lit(spec_report_msg()),
        SpecTok::Punct(','),
        SpecTok::Ident("stringify"@),
        SpecTok::Punct('!'),
        SpecTok::Open(Delim::Paren),
    ] + subject + seq![
        SpecTok::Close(Delim::Paren),
        SpecTok::Punct(','),
        SpecTok::Ident("stringify"@),
        SpecTok::Punct('!'),
        SpecTok::Open(Delim::Paren),
    ] + input + seq![
        SpecTok::Close(Delim::Paren),
        SpecTok::Close(Delim::Paren),
        SpecTok::Punct(';'),
    ]
}

/// The check statements of an assertion sequence, concatenated in order.
pub open spec fn spec_checks_cat(aa: Seq<SpecAssertion>) -> Seq<SpecTok>
    decreases aa.len(),
{
    if aa.len() == 0 {
        Seq::empty()
    } else {
        spec_check(aa.first()) + spec_checks_cat(aa.drop_first())
    }
}

/// Appending one assertion appends exactly its check statement.
pub proof fn lemma_checks_cat_push(aa: Seq<SpecAssertion>, x: SpecAssertion)
    ensures
        spec_checks_cat(aa.push(x)) == spec_checks_cat(aa) + spec_check(x),
    decreases aa.len(),
{
    if aa.len() == 0 {
        assert(aa.push(x).drop_first() =~= Seq::<SpecAssertion>::empty());
        assert(aa.push(x).first() == x);
        assert(spec_checks_cat(Seq::<SpecAssertion>::empty()) == Seq::<SpecTok>::empty());
        assert(spec_check(x) + Seq::<SpecTok>::empty() =~= spec_check(x));
        assert(Seq::<SpecTok>::empty() + spec_check(x) =~= spec_check(x));
    } else {
        assert(aa.push(x).drop_first() =~= aa.drop_first().push(x));
        assert(aa.push(x).first() == aa.first());
        lemma_checks_cat_push(aa.drop_first(), x);
        assert(spec_check(aa.first()) + (spec_checks_cat(aa.drop_first()) + spec_check(x)) =~= (
        spec_check(aa.first()) + spec_checks_cat(aa.drop_first())) + spec_check(x));
    }
}

/// The whole emitted stream: construction, one check per assertion in
/// declaration order, then the report. Emission is a pure function of the
/// parsed record: equal records always emit equal streams.
pub open spec fn spec_emit(d: SpecDriver) -> Seq<SpecTok> {
    spec_stmt_construct(d.subject, d.input) + spec_checks_cat(d.assertions) + spec_stmt_report(
        d.subject,
        d.input,
    )
}

fn emit_construct(subject: &Vec<Tok>, input: &Vec<Tok>) -> (out: Vec<Tok>)
    ensures
        tview(out@) == spec_stmt_construct(tview(subject@), tview(input@)),
{
    let mut out: Vec<Tok> = Vec::new();
    push_tok(&mut out, Tok::Ident("let".to_owned()));
    push_tok(&mut out, Tok::Ident("constructed".to_owned()));
    push_tok(&mut out, Tok::Punct(':'));
    append_toks(&mut out, subject);
    push_tok(&mut out, Tok::Punct('='));
    append_toks(&mut out, input);
    push_tok(&mut out, Tok::Punct('.'));
    push_tok(&mut out, Tok::Ident("into".to_owned()));
    push_tok(&mut out, Tok::Open(Delim::Paren));
    push_tok(&mut out, Tok::Close(Delim::Paren));
    push_tok(&mut out, Tok::Punct(';'));
    proof {
        assert(tview(out@) =~= spec_stmt_construct(tview(subject@), tview(input@)));
    }
    out
}

fn emit_report(subject: &Vec<Tok>, input: &Vec<Tok>) -> (out: Vec<Tok>)
    ensures
        tview(out@) == spec_stmt_report(tview(subject@), tview(input@)),
{
    let mut out: Vec<Tok> = Vec::new();
    push_tok(&mut out, Tok::Ident("println".to_owned()));
    push_tok(&mut out, Tok::Punct('!'));
    push_tok(&mut out, Tok::Open(Delim::Paren));
    push_tok(
        &mut out,
        Tok::Lit("\"test {:>10} with {:>10}  --> All assertions passed.\"".to_owned()),
    );
    push_tok(&mut out, Tok::Punct(','));
    push_tok(&mut out, Tok::Ident("stringify".to_owned()));
    push_tok(&mut out, Tok::Punct('!'));
    push_tok(&mut out, Tok::Open(Delim::Paren));
    append_toks(&mut out, subject);
    push_tok(&mut out, Tok::Close(Delim::Paren));
    push_tok(&mut out, Tok::Punct(','));
    push_tok(&mut out, Tok::Ident("stringify".to_owned()));
    push_tok(&mut out, Tok::Punct('!'));
    push_tok(&mut out, Tok::Open(Delim::Paren));
    append_toks(&mut out, input);
    push_tok(&mut out, Tok::Close(Delim::Paren));
    push_tok(&mut out, Tok::Close(Delim::Paren));
    push_tok(&mut out, Tok::Punct(';'));
    proof {
        assert(tview(out@) =~= spec_stmt_report(tview(subject@), tview(input@)));
    }
    out
}

impl Driver {
    /// Emits the translation of this record; see [`spec_emit`].
    pub fn emit(&self) -> (out: Vec<Tok>)
        ensures
            tview(out@) == spec_emit(self@),
    {
        let mut out = emit_construct(&self.subject, &self.input);
        let ghost construct = tview(out@);
        let mut i: usize = 0;
        while i < self.assertions.len()
            invariant
                i <= self.assertions@.len(),
                construct == spec_stmt_construct(tview(self.subject@), tview(self.input@)),
                tview(out@) == construct + spec_checks_cat(aview(self.assertions@).take(i as int)),
            decreases self.assertions@.len() - i,
        {
            let chk = self.assertions[i].construct_assertion();
            proof {
                let aa = aview(self.assertions@);
                assert(aa[i as int] == self.assertions@[i as int]@);
                assert(aa.take(i + 1) =~= aa.take(i as int).push(aa[i as int]));
                lemma_checks_cat_push(aa.take(i as int), aa[i as int]);
                assert((construct + spec_checks_cat(aa.take(i as int))) + spec_check(aa[i as int])
                    =~= construct + (spec_checks_cat(aa.take(i as int)) + spec_check(
                    aa[i as int],
                )));
            }
            append_toks(&mut out, &chk);
            i += 1;
        }
        proof {
            assert(aview(self.assertions@).take(self.assertions@.len() as int) =~= aview(
                self.assertions@,
            ));
        }
        let rep = emit_report(&self.subject, &self.input);
        append_toks(&mut out, &rep);
        out
    }
}

/// Translates one invocation: parse the stream, emit the checks, render the
/// result as text. Returns the rendered translation exactly when the stream
/// conforms to the grammar, and the parse error otherwise.
pub fn drive(input: &Vec<Tok>) -> (r: Result<String, ParseError>)
    ensures
        match r {
            Ok(s) => spec_parse(tview(input@)) matches Ok(d) && s@ == spec_render(spec_emit(d)),
            Err(e) => spec_parse(tview(input@)) == Err::<SpecDriver, SpecError>(e@),
        },
{
    match Driver::parse(input) {
        Ok(d) => {
            let toks = d.emit();
            Ok(render(&toks))
        },
        Err(e) => Err(e),
    }
}

} // verus!
