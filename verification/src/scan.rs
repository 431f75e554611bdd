//! Depth-aware scanning over a token stream.
//!
//! The grammar splits a stream at tokens that stand at group nesting depth
//! zero: the keyword `with`, the commas that separate list entries, and the
//! closing end of the group opened just before the scan started. One scanner
//! serves all three, told apart by [`ScanFor`].

use vstd::prelude::*;
use crate::token::{Tok, SpecTok, tview};

verus! {

/// What a scan looks for at depth zero.
#[derive(Clone, Copy, PartialEq, Eq, Structural, Debug)]
pub enum ScanFor {
    /// The identifier `with`.
    KwWith,
    /// A `,` punctuation token.
    Comma,
    /// The closing delimiter that matches the group the scan started in.
    AnyClose,
}

/// The first index `j >= i` whose token stands at depth zero (relative to the
/// starting depth `depth`) and matches `what`. A closing delimiter at depth
/// zero ends the scan: it is the match for [`ScanFor::AnyClose`] and a dead
/// end for the other two.
pub open spec fn spec_scan(s: Seq<SpecTok>, i: int, depth: nat, what: ScanFor) -> Option<int>
    decreases s.len() - i,
{
    if i < 0 || i >= s.len() {
        None
    } else {
        match s[i] {
            SpecTok::Open(_) => spec_scan(s, i + 1, depth + 1, what),
            SpecTok::Close(_) => if depth == 0 {
                if what is AnyClose {
                    Some(i)
                } else {
                    None
                }
            } else {
                spec_scan(s, i + 1, (depth - 1) as nat, what)
            },
            SpecTok::Ident(w) => if depth == 0 && what is KwWith && w == "with"@ {
                Some(i)
            } else {
                spec_scan(s, i + 1, depth, what)
            },
            SpecTok::Punct(c) => if depth == 0 && what is Comma && c == ',' {
                Some(i)
            } else {
                spec_scan(s, i + 1, depth, what)
            },
            SpecTok::Lit(_) => spec_scan(s, i + 1, depth, what),
        }
    }
}

/// A successful scan lands inside the stream, at or after its start.
pub proof fn lemma_scan_bounds(s: Seq<SpecTok>, i: int, depth: nat, what: ScanFor)
    ensures
        spec_scan(s, i, depth, what) matches Some(j) ==> i <= j < s.len(),
    decreases s.len() - i,
{
    if 0 <= i < s.len() {
        lemma_scan_bounds(s, i + 1, (depth + 1) as nat, what);
        lemma_scan_bounds(s, i + 1, depth, what);
        if depth > 0 {
            lemma_scan_bounds(s, i + 1, (depth - 1) as nat, what);
        }
    }
}

/// Whether two strings hold the same characters.
pub fn str_is(s: &String, w: &str) -> (r: bool)
    ensures
        r == (s@ == w@),
{
    let w2: String = w.to_owned();
    *s == w2
}

/// The executable scanner; see [`spec_scan`].
pub fn scan(toks: &Vec<Tok>, from: usize, depth: usize, what: ScanFor) -> (r: Option<usize>)
    requires
        depth <= from,
    ensures
        match r {
            Some(j) => from <= j < toks@.len()
                && spec_scan(tview(toks@), from as int, depth as nat, what) == Some(j as int),
            None => spec_scan(tview(toks@), from as int, depth as nat, what) is None,
        },
    decreases toks@.len() - from,
{
    if from >= toks.len() {
        return None;
    }
    proof {
        assert(tview(toks@)[from as int] == toks@[from as int]@);
    }
    match &toks[from] {
        Tok::Open(_) => scan(toks, from + 1, depth + 1, what),
        Tok::Close(_) => {
            if depth == 0 {
                if matches!(what, ScanFor::AnyClose) {
                    Some(from)
                } else {
                    None
                }
            } else {
                scan(toks, from + 1, depth - 1, what)
            }
        },
        Tok::Ident(w) => {
            if depth == 0 && matches!(what, ScanFor::KwWith) && str_is(w, "with") {
                Some(from)
            } else {
                scan(toks, from + 1, depth, what)
            }
        },
        Tok::Punct(c) => {
            if depth == 0 && matches!(what, ScanFor::Comma) && *c == ',' {
                Some(from)
            } else {
                scan(toks, from + 1, depth, what)
            }
        },
        Tok::Lit(_) => scan(toks, from + 1, depth, what),
    }
}

} // verus!
