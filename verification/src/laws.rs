//! The laws the translation obeys, each proved once and for all inputs.

use vstd::prelude::*;
use crate::assertion::{
    is_path_self, spec_check, spec_check_eq, spec_classify, spec_groups_run, spec_parse_assertion,
    spec_parse_eq, spec_path_end, SpecAssertEq, SpecAssertPath, SpecAssertion,
};
use crate::driver::{
    spec_checks_cat, spec_emit, spec_parse, spec_parse_assertions, SpecDriver,
};
use crate::error::{Expected, SpecError};
use crate::scan::{lemma_scan_bounds, spec_scan, ScanFor};
use crate::token::{spec_render, SpecTok};

verus! {

/// The check statements of a record, one per assertion, as a sequence.
pub open spec fn spec_checks(aa: Seq<SpecAssertion>) -> Seq<Seq<SpecTok>> {
    Seq::new(aa.len(), |i: int| spec_check(aa[i]))
}

proof fn lemma_checks_cat_is_flatten(aa: Seq<SpecAssertion>)
    ensures
        spec_checks_cat(aa) == spec_checks(aa).flatten(),
    decreases aa.len(),
{
    if aa.len() == 0 {
        assert(spec_checks(aa) =~= Seq::<Seq<SpecTok>>::empty());
        assert(Seq::<Seq<SpecTok>>::empty().flatten() == Seq::<SpecTok>::empty());
    } else {
        lemma_checks_cat_is_flatten(aa.drop_first());
        assert(spec_checks(aa).drop_first() =~= spec_checks(aa.drop_first()));
        assert(spec_checks(aa).first() == spec_check(aa.first()));
    }
}

/// Order preservation: the emitted stream is the construction statement,
/// then exactly one check statement per parsed assertion — as many checks as
/// assertions, the i-th check belonging to the i-th assertion — then the
/// report statement. Nothing is reordered, dropped or deduplicated.
pub proof fn law_order_preservation(d: SpecDriver)
    ensures
        spec_checks(d.assertions).len() == d.assertions.len(),
        forall|i: int|
            0 <= i < d.assertions.len() ==> spec_checks(d.assertions)[i] == spec_check(
                d.assertions[i],
            ),
        spec_emit(d) == crate::driver::spec_stmt_construct(d.subject, d.input) + spec_checks(
            d.assertions,
        ).flatten() + crate::driver::spec_stmt_report(d.subject, d.input),
{
    lemma_checks_cat_is_flatten(d.assertions);
}

/// Determinism: records parsed from the same source text emit byte-identical
/// text. Parsing and emission are functions of the token stream alone.
pub proof fn law_determinism(toks: Seq<SpecTok>, d1: SpecDriver, d2: SpecDriver)
    requires
        spec_parse(toks) == Ok::<SpecDriver, SpecError>(d1),
        spec_parse(toks) == Ok::<SpecDriver, SpecError>(d2),
    ensures
        d1 == d2,
        spec_render(spec_emit(d1)) == spec_render(spec_emit(d2)),
{
}

/// A bare `self` in the first position of `eq [...]` — and nothing else —
/// classifies as the whole constructed value.
pub proof fn law_whole_value_self(s: Seq<SpecTok>)
    ensures
        spec_classify(s) == Some(SpecAssertPath::Whole) <==> is_path_self(s),
        is_path_self(s) <==> s =~= seq![SpecTok::Ident("self"@)],
{
}

/// The whole-value comparison carries no member-access qualifier; a field or
/// call comparison always does: right after the receiver `constructed`, the
/// emitted check holds the argument separator for the whole value and a `.`
/// for every other path.
pub proof fn law_member_qualifier(a: SpecAssertEq)
    ensures
        spec_check_eq(a)[3] == SpecTok::Ident("constructed"@),
        a.path is Whole ==> spec_check_eq(a)[4] == SpecTok::Punct(','),
        !(a.path is Whole) ==> spec_check_eq(a)[4] == SpecTok::Punct('.'),
{
}

/// A well-formed equality path: the whole value, a bare path that is not
/// `self`, or a path applied to argument lists.
pub open spec fn path_wf(p: SpecAssertPath) -> bool {
    match p {
        SpecAssertPath::Whole => true,
        SpecAssertPath::Field(s) => !is_path_self(s) && spec_path_end(s, 0) == Some(
            s.len() as int,
        ),
        SpecAssertPath::Call(s) => !is_path_self(s) && (spec_path_end(s, 0) matches Some(j) && j
            < s.len() && spec_groups_run(s, j, 0)),
    }
}

/// Any first argument of `eq [...]` that is neither a bare path nor a call
/// is rejected with the "expected field accessing" diagnostic at the
/// argument's position — never silently accepted.
pub proof fn law_ill_formed_path_rejected(args: Seq<SpecTok>, base: int)
    ensures
        ({
            let k_opt = spec_scan(args, 0, 0, ScanFor::Comma);
            let first = match k_opt {
                Some(k) => args.subrange(0, k),
                None => args,
            };
            (first.len() > 0 && spec_classify(first) is None) ==> spec_parse_eq(args, base)
                == Err::<SpecAssertEq, SpecError>(
                SpecError { pos: base, expected: Expected::FieldAccessing },
            )
        }),
{
}

proof fn lemma_path_end_bounds(s: Seq<SpecTok>, i: int)
    ensures
        spec_path_end(s, i) matches Some(j) ==> i < j <= s.len(),
    decreases s.len() - i,
{
    if 0 <= i < s.len() && i + 2 < s.len() {
        lemma_path_end_bounds(s, i + 3);
    }
}

proof fn lemma_classify_wf(s: Seq<SpecTok>)
    ensures
        spec_classify(s) matches Some(p) ==> path_wf(p),
{
    lemma_path_end_bounds(s, 0);
    if !is_path_self(s) {
        match spec_path_end(s, 0) {
            Some(j) => {
                if j == s.len() {
                    assert(path_wf(SpecAssertPath::Field(s)));
                } else if spec_groups_run(s, j, 0) {
                    assert(path_wf(SpecAssertPath::Call(s)));
                }
            },
            None => {},
        }
    }
}

proof fn lemma_parse_eq_wf(args: Seq<SpecTok>, base: int)
    ensures
        spec_parse_eq(args, base) matches Ok(a) ==> path_wf(a.path),
{
    let k_opt = spec_scan(args, 0, 0, ScanFor::Comma);
    let first = match k_opt {
        Some(k) => args.subrange(0, k),
        None => args,
    };
    lemma_classify_wf(first);
}

proof fn lemma_parse_assertion_wf(run: Seq<SpecTok>, base: int)
    ensures
        spec_parse_assertion(run, base) matches Ok(a) ==> (a matches SpecAssertion::EQ(e)
            ==> path_wf(e.path)),
{
    if run.len() >= 2 {
        match spec_scan(run, 2, 0, ScanFor::AnyClose) {
            Some(m) => {
                lemma_parse_eq_wf(run.subrange(2, m), base + 2);
            },
            None => {},
        }
    }
}

proof fn lemma_parse_assertions_wf(body: Seq<SpecTok>, base: int, aa: Seq<SpecAssertion>)
    requires
        spec_parse_assertions(body, base) == Ok::<Seq<SpecAssertion>, SpecError>(aa),
    ensures
        forall|i: int|
            0 <= i < aa.len() ==> (#[trigger] aa[i] matches SpecAssertion::EQ(e) ==> path_wf(
                e.path,
            )),
    decreases body.len(),
{
    if body.len() > 0 {
        lemma_scan_bounds(body, 0, 0, ScanFor::Comma);
        let k_opt = spec_scan(body, 0, 0, ScanFor::Comma);
        let item = match k_opt {
            Some(k) => body.subrange(0, k),
            None => body,
        };
        lemma_parse_assertion_wf(item, base);
        if k_opt is Some {
            let k = k_opt->0;
            let rest = body.subrange(k + 1, body.len() as int);
            let rres = spec_parse_assertions(rest, base + k + 1);
            if rres is Ok {
                let tail = rres->Ok_0;
                lemma_parse_assertions_wf(rest, base + k + 1, tail);
                assert forall|i: int|
                    0 <= i < aa.len() implies (#[trigger] aa[i] matches SpecAssertion::EQ(e)
                    ==> path_wf(e.path)) by {
                    if i > 0 {
                        assert(aa[i] == tail[i - 1]);
                    }
                }
            }
        }
    }
}

/// Whatever parses has only classified equality paths: a successful parse
/// never lets an unsupported path shape through.
pub proof fn law_parsed_paths_well_formed(toks: Seq<SpecTok>, d: SpecDriver)
    requires
        spec_parse(toks) == Ok::<SpecDriver, SpecError>(d),
    ensures
        forall|i: int|
            0 <= i < d.assertions.len() ==> (#[trigger] d.assertions[i] matches SpecAssertion::EQ(
                e,
            ) ==> path_wf(e.path)),
{
    let iw = spec_scan(toks, 0, 0, ScanFor::KwWith)->0;
    let ic = spec_scan(toks, iw + 1, 0, ScanFor::Comma)->0;
    let mc = spec_scan(toks, ic + 3, 0, ScanFor::AnyClose)->0;
    lemma_parse_assertions_wf(toks.subrange(ic + 3, mc), ic + 3, d.assertions);
}

} // verus!
