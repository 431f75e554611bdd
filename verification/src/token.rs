//! The token model of the surface syntax, and its deterministic rendering.
//!
//! A stream is a flat sequence of tokens: identifiers (keywords included),
//! literals carried as their source text, single punctuation characters, and
//! the opening and closing ends of delimited groups. "Top level" in the
//! grammar means "at group nesting depth zero" of such a sequence.

use vstd::prelude::*;
use vstd::string::StringExecFns;

verus! {

/// The three delimiter shapes a token group can carry.
#[derive(Clone, Copy, PartialEq, Eq, Structural, Debug)]
pub enum Delim {
    Paren,
    Bracket,
    Brace,
}

/// One lexical token, as the host tokenizer hands it over.
#[derive(Debug)]
pub enum Tok {
    /// An identifier or keyword, e.g. `Subject`, `with`, `self`.
    Ident(String),
    /// A literal, carried as its source text, e.g. `56` or `"abc"`.
    Lit(String),
    /// A single punctuation character, e.g. `,`, `.`, `+`.
    Punct(char),
    /// The opening end of a delimited group.
    Open(Delim),
    /// The closing end of a delimited group.
    Close(Delim),
}

/// The mathematical model of a token: strings become character sequences.
pub enum SpecTok {
    Ident(Seq<char>),
    Lit(Seq<char>),
    Punct(char),
    Open(Delim),
    Close(Delim),
}

impl View for Tok {
    type V = SpecTok;

    open spec fn view(&self) -> SpecTok {
        match self {
            Tok::Ident(s) => SpecTok::Ident(s@),
            Tok::Lit(s) => SpecTok::Lit(s@),
            Tok::Punct(c) => SpecTok::Punct(*c),
            Tok::Open(d) => SpecTok::Open(*d),
            Tok::Close(d) => SpecTok::Close(*d),
        }
    }
}

/// The model of a token sequence: each token replaced by its model.
pub open spec fn tview(s: Seq<Tok>) -> Seq<SpecTok> {
    s.map_values(|t: Tok| t@)
}

pub proof fn lemma_tview_push(s: Seq<Tok>, t: Tok)
    ensures
        tview(s.push(t)) == tview(s).push(t@),
{
    assert(tview(s.push(t)) =~= tview(s).push(t@));
}

/// The text of one token: its characters, with groups shown as their
/// delimiter characters.
pub open spec fn spec_tok_text(t: SpecTok) -> Seq<char> {
    match t {
        SpecTok::Ident(s) => s,
        SpecTok::Lit(s) => s,
        SpecTok::Punct(c) => seq![c],
        SpecTok::Open(Delim::Paren) => seq!['('],
        SpecTok::Open(Delim::Bracket) => seq!['['],
        SpecTok::Open(Delim::Brace) => seq!['{'],
        SpecTok::Close(Delim::Paren) => seq![')'],
        SpecTok::Close(Delim::Bracket) => seq![']'],
        SpecTok::Close(Delim::Brace) => seq!['}'],
    }
}

/// The textual form of a token sequence: the tokens' texts joined by single
/// spaces. Rendering is a pure function of the sequence, so equal sequences
/// always render to equal text.
pub open spec fn spec_render(s: Seq<SpecTok>) -> Seq<char>
    decreases s.len(),
{
    if s.len() == 0 {
        Seq::empty()
    } else if s.len() == 1 {
        spec_tok_text(s[0])
    } else {
        spec_render(s.drop_last()) + seq![' '] + spec_tok_text(s.last())
    }
}

/// Relies on `String::push` of std: appends exactly the given character at
/// the end of the string.
#[verifier::external_body]
fn push_char(out: &mut String, c: char)
    ensures
        final(out)@ == old(out)@.push(c),
{
    out.push(c);
}

fn push_tok_text(out: &mut String, t: &Tok)
    ensures
        final(out)@ == old(out)@ + spec_tok_text(t@),
{
    match t {
        Tok::Ident(s) => out.append(s.as_str()),
        Tok::Lit(s) => out.append(s.as_str()),
        Tok::Punct(c) => {
            push_char(out, *c);
            proof {
                assert(old(out)@.push(*c) =~= old(out)@ + seq![*c]);
            }
        },
        Tok::Open(d) => {
            let c: char = match d {
                Delim::Paren => '(',
                Delim::Bracket => '[',
                Delim::Brace => '{',
            };
            push_char(out, c);
            proof {
                assert(old(out)@.push(c) =~= old(out)@ + seq![c]);
            }
        },
        Tok::Close(d) => {
            let c: char = match d {
                Delim::Paren => ')',
                Delim::Bracket => ']',
                Delim::Brace => '}',
            };
            push_char(out, c);
            proof {
                assert(old(out)@.push(c) =~= old(out)@ + seq![c]);
            }
        },
    }
}

/// Renders a token stream as text, one space between adjacent tokens.
pub fn render(toks: &Vec<Tok>) -> (r: String)
    ensures
        r@ == spec_render(tview(toks@)),
{
    let mut out: String = String::new();
    let mut i: usize = 0;
    while i < toks.len()
        invariant
            i <= toks@.len(),
            out@ == spec_render(tview(toks@).take(i as int)),
        decreases toks@.len() - i,
    {
        if i > 0 {
            push_char(&mut out, ' ');
        }
        push_tok_text(&mut out, &toks[i]);
        proof {
            let s = tview(toks@);
            assert(s.take(i + 1).drop_last() =~= s.take(i as int));
            assert(s.take(i + 1).last() == s[i as int]);
            if i == 0 {
                assert(spec_render(s.take(1)) == spec_tok_text(s[0]));
                assert(Seq::<char>::empty() + spec_tok_text(s[0]) =~= spec_tok_text(s[0]));
            } else {
                assert(spec_render(s.take(i as int)).push(' ') + spec_tok_text(s[i as int])
                    =~= spec_render(s.take(i as int)) + seq![' '] + spec_tok_text(s[i as int]));
            }
        }
        i += 1;
    }
    proof {
        assert(tview(toks@).take(toks@.len() as int) =~= tview(toks@));
    }
    out
}

/// A copy of one token, equal to the original in the model.
pub fn tok_copy(t: &Tok) -> (r: Tok)
    ensures
        r@ == t@,
{
    match t {
        Tok::Ident(s) => Tok::Ident(s.clone()),
        Tok::Lit(s) => Tok::Lit(s.clone()),
        Tok::Punct(c) => Tok::Punct(*c),
        Tok::Open(d) => Tok::Open(*d),
        Tok::Close(d) => Tok::Close(*d),
    }
}

/// A copy of the window `[lo, hi)` of a token stream.
pub fn sub_toks(toks: &Vec<Tok>, lo: usize, hi: usize) -> (r: Vec<Tok>)
    requires
        lo <= hi <= toks@.len(),
    ensures
        tview(r@) == tview(toks@).subrange(lo as int, hi as int),
{
    let mut out: Vec<Tok> = Vec::new();
    let mut i: usize = lo;
    while i < hi
        invariant
            lo <= i <= hi <= toks@.len(),
            tview(out@) == tview(toks@).subrange(lo as int, i as int),
        decreases hi - i,
    {
        let t = tok_copy(&toks[i]);
        proof {
            lemma_tview_push(out@, t);
            assert(tview(toks@).subrange(lo as int, i as int).push(toks@[i as int]@)
                =~= tview(toks@).subrange(lo as int, i + 1));
        }
        out.push(t);
        i += 1;
    }
    out
}

/// Appends one token, extending the model by its view.
pub fn push_tok(out: &mut Vec<Tok>, t: Tok)
    ensures
        tview(final(out)@) == tview(old(out)@).push(t@),
{
    proof {
        lemma_tview_push(out@, t);
    }
    out.push(t);
}

/// Appends a copy of every token of `src`.
pub fn append_toks(out: &mut Vec<Tok>, src: &Vec<Tok>)
    ensures
        tview(final(out)@) == tview(old(out)@) + tview(src@),
{
    let ghost base = tview(out@);
    let mut i: usize = 0;
    while i < src.len()
        invariant
            i <= src@.len(),
            tview(out@) == base + tview(src@).take(i as int),
        decreases src@.len() - i,
    {
        let t = tok_copy(&src[i]);
        proof {
            lemma_tview_push(out@, t);
            assert((base + tview(src@).take(i as int)).push(src@[i as int]@)
                =~= base + tview(src@).take(i + 1));
        }
        out.push(t);
        i += 1;
    }
    proof {
        assert(tview(src@).take(src@.len() as int) =~= tview(src@));
    }
}

} // verus!
