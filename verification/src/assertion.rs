//! The assertion layer: the two assertion forms, the path classifier for
//! `eq [...]`, their parsers, and the check statement each one emits.
//!
//! `eq [lhs, rhs]` compares a part of the constructed value against `rhs`.
//! The left-hand side must be one of three shapes: the bare identifier
//! `self` (compare the whole constructed value), a bare path (compare a
//! member), or a call (compare a method's result). Anything else is a parse
//! error. `ne [lhs, rhs]` takes any expression on the left and always
//! compares a member: no whole-value form exists for it. That asymmetry is
//! in the surface grammar on purpose and is preserved here.

use vstd::prelude::*;
use vstd::string::StringExecFns;
use crate::error::{Expected, ParseError, SpecError};
use crate::scan::{scan, spec_scan, str_is, ScanFor};
use crate::token::{append_toks, push_tok, sub_toks, tview, Delim, SpecTok, Tok};

verus! {

/// The classified left-hand side of an `eq [...]` assertion.
pub enum AssertPath {
    /// The bare identifier `self`: the whole constructed value.
    Whole,
    /// A bare path naming a member, kept verbatim.
    Field(Vec<Tok>),
    /// A call expression, kept verbatim.
    Call(Vec<Tok>),
}

/// The model of a classified path.
pub enum SpecAssertPath {
    Whole,
    Field(Seq<SpecTok>),
    Call(Seq<SpecTok>),
}

impl View for AssertPath {
    type V = SpecAssertPath;

    open spec fn view(&self) -> SpecAssertPath {
        match self {
            AssertPath::Whole => SpecAssertPath::Whole,
            AssertPath::Field(p) => SpecAssertPath::Field(tview(p@)),
            AssertPath::Call(c) => SpecAssertPath::Call(tview(c@)),
        }
    }
}

/// An equality assertion: a classified path and the expected value.
pub struct AssertEQ {
    pub path: AssertPath,
    pub expected: Vec<Tok>,
}

/// The model of an equality assertion.
pub struct SpecAssertEq {
    pub path: SpecAssertPath,
    pub expected: Seq<SpecTok>,
}

impl View for AssertEQ {
    type V = SpecAssertEq;

    open spec fn view(&self) -> SpecAssertEq {
        SpecAssertEq { path: self.path@, expected: tview(self.expected@) }
    }
}

/// An inequality assertion: a member path (kept verbatim, never classified)
/// and the expected value.
pub struct AssertNE {
    pub path: Vec<Tok>,
    pub expected: Vec<Tok>,
}

/// The model of an inequality assertion.
pub struct SpecAssertNe {
    pub path: Seq<SpecTok>,
    pub expected: Seq<SpecTok>,
}

impl View for AssertNE {
    type V = SpecAssertNe;

    open spec fn view(&self) -> SpecAssertNe {
        SpecAssertNe { path: tview(self.path@), expected: tview(self.expected@) }
    }
}

/// One assertion of either form.
pub enum Assertion {
    EQ(AssertEQ),
    NE(AssertNE),
}

/// The model of an assertion.
pub enum SpecAssertion {
    EQ(SpecAssertEq),
    NE(SpecAssertNe),
}

impl View for Assertion {
    type V = SpecAssertion;

    open spec fn view(&self) -> SpecAssertion {
        match self {
            Assertion::EQ(a) => SpecAssertion::EQ(a@),
            Assertion::NE(a) => SpecAssertion::NE(a@),
        }
    }
}

// ------------------------------------------------------------------
// The path classifier.
// ------------------------------------------------------------------

/// Whether the run is the bare identifier `self`, with nothing else.
pub open spec fn is_path_self(s: Seq<SpecTok>) -> bool {
    s.len() == 1 && s[0] == SpecTok::Ident("self"@)
}

/// The end of the path `ident (:: ident)*` that starts at `i`, if one does.
pub open spec fn spec_path_end(s: Seq<SpecTok>, i: int) -> Option<int>
    decreases s.len() - i,
{
    if i < 0 || i >= s.len() {
        None
    } else if !(s[i] is Ident) {
        None
    } else if i + 2 < s.len() && s[i + 1] == SpecTok::Punct(':') && s[i + 2] == SpecTok::Punct(
        ':',
    ) {
        spec_path_end(s, i + 3)
    } else {
        Some(i + 1)
    }
}

/// Whether the tokens from `i` on are a run of one or more balanced
/// parenthesis groups (argument lists), given the current nesting depth.
pub open spec fn spec_groups_run(s: Seq<SpecTok>, i: int, depth: nat) -> bool
    decreases s.len() - i,
{
    if i >= s.len() {
        depth == 0
    } else {
        match s[i] {
            SpecTok::Open(d) => if depth == 0 {
                d == Delim::Paren && spec_groups_run(s, i + 1, 1)
            } else {
                spec_groups_run(s, i + 1, depth + 1)
            },
            SpecTok::Close(d) => depth > 0 && (if depth == 1 {
                d == Delim::Paren && spec_groups_run(s, i + 1, 0)
            } else {
                spec_groups_run(s, i + 1, (depth - 1) as nat)
            }),
            _ => depth > 0 && spec_groups_run(s, i + 1, depth),
        }
    }
}

/// Classifies the first argument of `eq [...]`: the bare identifier `self`
/// is the whole constructed value; a bare path is a member; a path applied
/// to one or more argument lists is a call; every other shape is refused.
pub open spec fn spec_classify(s: Seq<SpecTok>) -> Option<SpecAssertPath> {
    if is_path_self(s) {
        Some(SpecAssertPath::Whole)
    } else {
        match spec_path_end(s, 0) {
            Some(j) => if j == s.len() {
                Some(SpecAssertPath::Field(s))
            } else if spec_groups_run(s, j, 0) {
                Some(SpecAssertPath::Call(s))
            } else {
                None
            },
            None => None,
        }
    }
}

fn is_colon(t: &Tok) -> (r: bool)
    ensures
        r == (t@ == SpecTok::Punct(':')),
{
    match t {
        Tok::Punct(c) => *c == ':',
        _ => false,
    }
}

fn path_end(toks: &Vec<Tok>, i: usize) -> (r: Option<usize>)
    ensures
        match r {
            Some(j) => i < j <= toks@.len() && spec_path_end(tview(toks@), i as int) == Some(
                j as int,
            ),
            None => spec_path_end(tview(toks@), i as int) is None,
        },
    decreases toks@.len() - i,
{
    if i >= toks.len() {
        return None;
    }
    proof {
        assert(tview(toks@)[i as int] == toks@[i as int]@);
    }
    match &toks[i] {
        Tok::Ident(_) => {
            if toks.len() - i > 2 && is_colon(&toks[i + 1]) && is_colon(&toks[i + 2]) {
                path_end(toks, i + 3)
            } else {
                Some(i + 1)
            }
        },
        _ => None,
    }
}

fn groups_run(toks: &Vec<Tok>, i: usize, depth: usize) -> (r: bool)
    requires
        depth <= i,
    ensures
        r == spec_groups_run(tview(toks@), i as int, depth as nat),
    decreases toks@.len() - i,
{
    if i >= toks.len() {
        return depth == 0;
    }
    proof {
        assert(tview(toks@)[i as int] == toks@[i as int]@);
    }
    match &toks[i] {
        Tok::Open(d) => {
            if depth == 0 {
                matches!(d, Delim::Paren) && groups_run(toks, i + 1, 1)
            } else {
                groups_run(toks, i + 1, depth + 1)
            }
        },
        Tok::Close(d) => {
            if depth == 0 {
                false
            } else if depth == 1 {
                matches!(d, Delim::Paren) && groups_run(toks, i + 1, 0)
            } else {
                groups_run(toks, i + 1, depth - 1)
            }
        },
        _ => depth >= 1 && groups_run(toks, i + 1, depth),
    }
}

/// The executable classifier; see [`spec_classify`].
pub fn classify(toks: &Vec<Tok>) -> (r: Option<AssertPath>)
    ensures
        match r {
            Some(p) => spec_classify(tview(toks@)) == Some(p@),
            None => spec_classify(tview(toks@)) is None,
        },
{
    if toks.len() == 1 {
        if let Tok::Ident(s) = &toks[0] {
            if str_is(s, "self") {
                proof {
                    assert(tview(toks@)[0] == toks@[0]@);
                }
                return Some(AssertPath::Whole);
            }
        }
    }
    proof {
        assert(tview(toks@).len() == 1 ==> tview(toks@)[0] == toks@[0]@);
        assert(!is_path_self(tview(toks@)));
    }
    match path_end(toks, 0) {
        None => None,
        Some(j) => {
            if j == toks.len() {
                let run = sub_toks(toks, 0, toks.len());
                proof {
                    assert(tview(toks@).subrange(0, toks@.len() as int) =~= tview(toks@));
                }
                Some(AssertPath::Field(run))
            } else if groups_run(toks, j, 0) {
                let run = sub_toks(toks, 0, toks.len());
                proof {
                    assert(tview(toks@).subrange(0, toks@.len() as int) =~= tview(toks@));
                }
                Some(AssertPath::Call(run))
            } else {
                None
            }
        },
    }
}

// ------------------------------------------------------------------
// Parsing the two argument lists.
// ------------------------------------------------------------------

/// Parses the bracket contents of `eq [...]`: a classified path, a `,`, and
/// the expected-value expression, with nothing after it. `base` is the
/// absolute position of the first content token, for diagnostics.
pub open spec fn spec_parse_eq(args: Seq<SpecTok>, base: int) -> Result<SpecAssertEq, SpecError> {
    let k_opt = spec_scan(args, 0, 0, ScanFor::Comma);
    let first = match k_opt {
        Some(k) => args.subrange(0, k),
        None => args,
    };
    if first.len() == 0 {
        Err(SpecError { pos: base, expected: Expected::Expression })
    } else {
        match spec_classify(first) {
            None => Err(SpecError { pos: base, expected: Expected::FieldAccessing }),
            Some(p) => match k_opt {
                None => Err(SpecError { pos: base + args.len(), expected: Expected::Comma }),
                Some(k) => {
                    let second = args.subrange(k + 1, args.len() as int);
                    if second.len() == 0 {
                        Err(SpecError { pos: base + k + 1, expected: Expected::Expression })
                    } else {
                        match spec_scan(second, 0, 0, ScanFor::Comma) {
                            Some(k2) => Err(
                                SpecError { pos: base + k + 1 + k2, expected: Expected::End },
                            ),
                            None => Ok(SpecAssertEq { path: p, expected: second }),
                        }
                    }
                },
            },
        }
    }
}

/// Parses the bracket contents of `ne [...]`: any nonempty expression, a
/// `,`, and the expected-value expression, with nothing after it.
pub open spec fn spec_parse_ne(args: Seq<SpecTok>, base: int) -> Result<SpecAssertNe, SpecError> {
    let k_opt = spec_scan(args, 0, 0, ScanFor::Comma);
    let first = match k_opt {
        Some(k) => args.subrange(0, k),
        None => args,
    };
    if first.len() == 0 {
        Err(SpecError { pos: base, expected: Expected::Expression })
    } else {
        match k_opt {
            None => Err(SpecError { pos: base + args.len(), expected: Expected::Comma }),
            Some(k) => {
                let second = args.subrange(k + 1, args.len() as int);
                if second.len() == 0 {
                    Err(SpecError { pos: base + k + 1, expected: Expected::Expression })
                } else {
                    match spec_scan(second, 0, 0, ScanFor::Comma) {
                        Some(k2) => Err(
                            SpecError { pos: base + k + 1 + k2, expected: Expected::End },
                        ),
                        None => Ok(SpecAssertNe { path: first, expected: second }),
                    }
                }
            },
        }
    }
}

/// Parses one assertion out of a comma-free run: the keyword `eq` or `ne`
/// followed by one bracket group that spans the rest of the run.
pub open spec fn spec_parse_assertion(run: Seq<SpecTok>, base: int) -> Result<
    SpecAssertion,
    SpecError,
> {
    if run.len() == 0 {
        Err(SpecError { pos: base, expected: Expected::AssertionKeyword })
    } else {
        let is_eq = run[0] == SpecTok::Ident("eq"@);
        let is_ne = run[0] == SpecTok::Ident("ne"@);
        if !is_eq && !is_ne {
            Err(SpecError { pos: base, expected: Expected::AssertionKeyword })
        } else if run.len() < 2 || run[1] != SpecTok::Open(Delim::Bracket) {
            Err(SpecError { pos: base + 1, expected: Expected::BracketGroup })
        } else {
            match spec_scan(run, 2, 0, ScanFor::AnyClose) {
                None => Err(SpecError { pos: base + run.len(), expected: Expected::BracketGroup }),
                Some(m) => if run[m] != SpecTok::Close(Delim::Bracket) {
                    Err(SpecError { pos: base + m, expected: Expected::BracketGroup })
                } else if m + 1 != run.len() {
                    Err(SpecError { pos: base + m + 1, expected: Expected::Comma })
                } else {
                    let args = run.subrange(2, m);
                    if is_eq {
                        match spec_parse_eq(args, base + 2) {
                            Ok(a) => Ok(SpecAssertion::EQ(a)),
                            Err(e) => Err(e),
                        }
                    } else {
                        match spec_parse_ne(args, base + 2) {
                            Ok(a) => Ok(SpecAssertion::NE(a)),
                            Err(e) => Err(e),
                        }
                    }
                },
            }
        }
    }
}

impl AssertEQ {
    /// Parses the contents of the bracket group of `eq [...]`.
    pub fn parse(args: &Vec<Tok>, base: usize) -> (r: Result<AssertEQ, ParseError>)
        requires
            base + args@.len() <= usize::MAX,
        ensures
            match r {
                Ok(a) => spec_parse_eq(tview(args@), base as int) == Ok::<
                    SpecAssertEq,
                    SpecError,
                >(a@),
                Err(e) => spec_parse_eq(tview(args@), base as int) == Err::<
                    SpecAssertEq,
                    SpecError,
                >(e@),
            },
    {
        let k_opt = scan(args, 0, 0, ScanFor::Comma);
        let hi = match k_opt {
            Some(k) => k,
            None => args.len(),
        };
        let first = sub_toks(args, 0, hi);
        proof {
            if k_opt is None {
                assert(tview(args@).subrange(0, args@.len() as int) =~= tview(args@));
            }
        }
        if first.len() == 0 {
            return Err(ParseError { pos: base, expected: Expected::Expression });
        }
        let path = match classify(&first) {
            Some(p) => p,
            None => {
                return Err(ParseError { pos: base, expected: Expected::FieldAccessing });
            },
        };
        let k = match k_opt {
            Some(k) => k,
            None => {
                return Err(ParseError { pos: base + args.len(), expected: Expected::Comma });
            },
        };
        let second = sub_toks(args, k + 1, args.len());
        if second.len() == 0 {
            return Err(ParseError { pos: base + k + 1, expected: Expected::Expression });
        }
        match scan(&second, 0, 0, ScanFor::Comma) {
            Some(k2) => Err(ParseError { pos: base + k + 1 + k2, expected: Expected::End }),
            None => Ok(AssertEQ { path, expected: second }),
        }
    }
}

impl AssertNE {
    /// Parses the contents of the bracket group of `ne [...]`.
    pub fn parse(args: &Vec<Tok>, base: usize) -> (r: Result<AssertNE, ParseError>)
        requires
            base + args@.len() <= usize::MAX,
        ensures
            match r {
                Ok(a) => spec_parse_ne(tview(args@), base as int) == Ok::<
                    SpecAssertNe,
                    SpecError,
                >(a@),
                Err(e) => spec_parse_ne(tview(args@), base as int) == Err::<
                    SpecAssertNe,
                    SpecError,
                >(e@),
            },
    {
        let k_opt = scan(args, 0, 0, ScanFor::Comma);
        let hi = match k_opt {
            Some(k) => k,
            None => args.len(),
        };
        let first = sub_toks(args, 0, hi);
        proof {
            if k_opt is None {
                assert(tview(args@).subrange(0, args@.len() as int) =~= tview(args@));
            }
        }
        if first.len() == 0 {
            return Err(ParseError { pos: base, expected: Expected::Expression });
        }
        let k = match k_opt {
            Some(k) => k,
            None => {
                return Err(ParseError { pos: base + args.len(), expected: Expected::Comma });
            },
        };
        let second = sub_toks(args, k + 1, args.len());
        if second.len() == 0 {
            return Err(ParseError { pos: base + k + 1, expected: Expected::Expression });
        }
        match scan(&second, 0, 0, ScanFor::Comma) {
            Some(k2) => Err(ParseError { pos: base + k + 1 + k2, expected: Expected::End }),
            None => Ok(AssertNE { path: first, expected: second }),
        }
    }
}

impl Assertion {
    /// Parses one assertion out of a comma-free run of tokens.
    pub fn parse(run: &Vec<Tok>, base: usize) -> (r: Result<Assertion, ParseError>)
        requires
            base + run@.len() <= usize::MAX,
        ensures
            match r {
                Ok(a) => spec_parse_assertion(tview(run@), base as int) == Ok::<
                    SpecAssertion,
                    SpecError,
                >(a@),
                Err(e) => spec_parse_assertion(tview(run@), base as int) == Err::<
                    SpecAssertion,
                    SpecError,
                >(e@),
            },
    {
        if run.len() == 0 {
            return Err(ParseError { pos: base, expected: Expected::AssertionKeyword });
        }
        proof {
            assert(tview(run@)[0] == run@[0]@);
        }
        let (is_eq, is_ne) = match &run[0] {
            Tok::Ident(s) => (str_is(s, "eq"), str_is(s, "ne")),
            _ => (false, false),
        };
        if !is_eq && !is_ne {
            return Err(ParseError { pos: base, expected: Expected::AssertionKeyword });
        }
        proof {
            if run@.len() >= 2 {
                assert(tview(run@)[1] == run@[1]@);
            }
        }
        let open_ok = run.len() >= 2 && matches!(&run[1], Tok::Open(Delim::Bracket));
        if !open_ok {
            return Err(ParseError { pos: base + 1, expected: Expected::BracketGroup });
        }
        let m = match scan(run, 2, 0, ScanFor::AnyClose) {
            Some(m) => m,
            None => {
                return Err(ParseError { pos: base + run.len(), expected: Expected::BracketGroup });
            },
        };
        proof {
            assert(tview(run@)[m as int] == run@[m as int]@);
        }
        if !matches!(&run[m], Tok::Close(Delim::Bracket)) {
            return Err(ParseError { pos: base + m, expected: Expected::BracketGroup });
        }
        if m + 1 != run.len() {
            return Err(ParseError { pos: base + m + 1, expected: Expected::Comma });
        }
        let args = sub_toks(run, 2, m);
        if is_eq {
            match AssertEQ::parse(&args, base + 2) {
                Ok(a) => Ok(Assertion::EQ(a)),
                Err(e) => Err(e),
            }
        } else {
            match AssertNE::parse(&args, base + 2) {
                Ok(a) => Ok(Assertion::NE(a)),
                Err(e) => Err(e),
            }
        }
    }
}

// ------------------------------------------------------------------
// Emission: the check statement each assertion turns into.
// ------------------------------------------------------------------

/// The tokens a classified path contributes: none for the whole value.
pub open spec fn spec_path_toks(p: SpecAssertPath) -> Seq<SpecTok> {
    match p {
        SpecAssertPath::Whole => Seq::empty(),
        SpecAssertPath::Field(s) => s,
        SpecAssertPath::Call(s) => s,
    }
}

/// The receiver of an equality check: the constructed value, qualified by a
/// member access exactly when the path is not the whole value.
pub open spec fn spec_lead(p: SpecAssertPath) -> Seq<SpecTok> {
    match p {
        SpecAssertPath::Whole => seq![SpecTok::Ident("constructed"@)],
        _ => seq![SpecTok::Ident("constructed"@), SpecTok::Punct('.')] + spec_path_toks(p),
    }
}

/// The diagnostic format literal of an equality check.
pub open spec fn spec_eq_msg() -> Seq<char> {
    "\"testing eq [{}, {}]\""@
}

/// The check statement of an equality assertion.
pub open spec fn spec_check_eq(a: SpecAssertEq) -> Seq<SpecTok> {
    seq![SpecTok::Ident("assert_eq"@), SpecTok::Punct('!'), SpecTok::Open(Delim::Paren)]
        + spec_lead(a.path) + seq![SpecTok::Punct(',')] + a.expected + seq![
        SpecTok::Punct(','),
        SpecTok::Lit(spec_eq_msg()),
        SpecTok::Punct(','),
        SpecTok::Ident("stringify"@),
        SpecTok::Punct('!'),
        SpecTok::Open(Delim::Paren),
    ] + spec_path_toks(a.path) + seq![SpecTok::Close(Delim::Paren), SpecTok::Punct(',')]
        + a.expected + seq![SpecTok::Close(Delim::Paren), SpecTok::Punct(';')]
}

/// The check statement of an inequality assertion.
pub open spec fn spec_check_ne(a: SpecAssertNe) -> Seq<SpecTok> {
    seq![
        SpecTok::Ident("assert_ne"@),
        SpecTok::Punct('!'),
        SpecTok::Open(Delim::Paren),
        SpecTok::Ident("constructed"@),
        SpecTok::Punct('.'),
    ] + a.path + seq![SpecTok::Punct(',')] + a.expected + seq![
        SpecTok::Close(Delim::Paren),
        SpecTok::Punct(';'),
    ]
}

/// The check statement of an assertion.
pub open spec fn spec_check(a: SpecAssertion) -> Seq<SpecTok> {
    match a {
        SpecAssertion::EQ(e) => spec_check_eq(e),
        SpecAssertion::NE(n) => spec_check_ne(n),
    }
}

impl AssertPath {
    /// Appends the path's tokens: nothing for the whole value, the kept run
    /// for a member or call.
    pub fn to_tokens(&self, out: &mut Vec<Tok>)
        ensures
            tview(final(out)@) == tview(old(out)@) + spec_path_toks(self@),
    {
        match self {
            AssertPath::Whole => {
                proof {
                    assert(tview(out@) + Seq::<SpecTok>::empty() =~= tview(out@));
                }
            },
            AssertPath::Field(p) => append_toks(out, p),
            AssertPath::Call(c) => append_toks(out, c),
        }
    }
}

impl AssertEQ {
    /// Emits the equality check on the fixed identifier `constructed`,
    /// reporting the path's literal text and the expected value on failure.
    pub fn construct_assertion(&self) -> (out: Vec<Tok>)
        ensures
            tview(out@) == spec_check_eq(self@),
    {
        let mut out: Vec<Tok> = Vec::new();
        push_tok(&mut out, Tok::Ident("assert_eq".to_owned()));
        push_tok(&mut out, Tok::Punct('!'));
        push_tok(&mut out, Tok::Open(Delim::Paren));
        push_tok(&mut out, Tok::Ident("constructed".to_owned()));
        if !matches!(&self.path, AssertPath::Whole) {
            push_tok(&mut out, Tok::Punct('.'));
        }
        self.path.to_tokens(&mut out);
        proof {
            assert(tview(out@) =~= seq![
                SpecTok::Ident("assert_eq"@),
                SpecTok::Punct('!'),
                SpecTok::Open(Delim::Paren),
            ] + spec_lead(self.path@));
        }
        push_tok(&mut out, Tok::Punct(','));
        append_toks(&mut out, &self.expected);
        push_tok(&mut out, Tok::Punct(','));
        push_tok(&mut out, Tok::Lit("\"testing eq [{}, {}]\"".to_owned()));
        push_tok(&mut out, Tok::Punct(','));
        push_tok(&mut out, Tok::Ident("stringify".to_owned()));
        push_tok(&mut out, Tok::Punct('!'));
        push_tok(&mut out, Tok::Open(Delim::Paren));
        self.path.to_tokens(&mut out);
        push_tok(&mut out, Tok::Close(Delim::Paren));
        push_tok(&mut out, Tok::Punct(','));
        append_toks(&mut out, &self.expected);
        push_tok(&mut out, Tok::Close(Delim::Paren));
        push_tok(&mut out, Tok::Punct(';'));
        proof {
            assert(tview(out@) =~= spec_check_eq(self@));
        }
        out
    }
}

impl AssertNE {
    /// Emits the inequality check on the fixed identifier `constructed`.
    pub fn construct_assertion(&self) -> (out: Vec<Tok>)
        ensures
            tview(out@) == spec_check_ne(self@),
    {
        let mut out: Vec<Tok> = Vec::new();
        push_tok(&mut out, Tok::Ident("assert_ne".to_owned()));
        push_tok(&mut out, Tok::Punct('!'));
        push_tok(&mut out, Tok::Open(Delim::Paren));
        push_tok(&mut out, Tok::Ident("constructed".to_owned()));
        push_tok(&mut out, Tok::Punct('.'));
        append_toks(&mut out, &self.path);
        push_tok(&mut out, Tok::Punct(','));
        append_toks(&mut out, &self.expected);
        push_tok(&mut out, Tok::Close(Delim::Paren));
        push_tok(&mut out, Tok::Punct(';'));
        proof {
            assert(tview(out@) =~= spec_check_ne(self@));
        }
        out
    }
}

impl Assertion {
    /// Emits the check statement of this assertion.
    pub fn construct_assertion(&self) -> (out: Vec<Tok>)
        ensures
            tview(out@) == spec_check(self@),
    {
        match self {
            Assertion::EQ(a) => a.construct_assertion(),
            Assertion::NE(a) => a.construct_assertion(),
        }
    }
}

} // verus!
