use vstd::prelude::*;
use vstd::string::StringExecFns;
use crate::meta::{
    copy_ident, copy_lit, lit_span, lit_text, Ident, IdentV, Lit, LitV,
};
use crate::span::Span;
use crate::text::push_char;

verus! {

broadcast use vstd::seq::group_seq_axioms, vstd::std_specs::vec::group_vec_axioms;

/// The delimiter of a token group.
#[derive(Clone, Copy, Debug, PartialEq, Eq, Structural)]
pub enum Delim {
    Paren,
    Brace,
    Bracket,
}

/// One token of re-lexed or shorthand-declaration text: an identifier, a
/// literal, a punctuation character, or a delimited group of tokens.
#[derive(Debug)]
pub enum Tok {
    Ident(Ident),
    Literal(Lit),
    Punct { ch: char, span: Span },
    Group { delim: Delim, toks: Vec<Tok>, span: Span },
}

/// Mathematical model of a token.
pub enum TokV {
    Ident(IdentV),
    Literal(LitV),
    Punct { ch: char, span: Span },
    Group { delim: Delim, toks: Seq<TokV>, span: Span },
}

/// The model of a token, descending into groups.
pub open spec fn tok_view(t: Tok) -> TokV
    decreases t,
{
    match t {
        Tok::Ident(id) => TokV::Ident(id@),
        Tok::Literal(l) => TokV::Literal(l@),
        Tok::Punct { ch, span } => TokV::Punct { ch, span },
        Tok::Group { delim, toks, span } => TokV::Group {
            delim,
            toks: toks_view(toks@),
            span,
        },
    }
}

/// The models of a token sequence, in order.
pub open spec fn toks_view(s: Seq<Tok>) -> Seq<TokV>
    decreases s,
{
    if s.len() == 0 {
        Seq::empty()
    } else {
        toks_view(s.subrange(0, s.len() - 1)).push(tok_view(s.last()))
    }
}

impl View for Tok {
    type V = TokV;

    open spec fn view(&self) -> TokV {
        tok_view(*self)
    }
}

/// `toks_view` maps element by element.
pub proof fn lemma_toks_view(s: Seq<Tok>)
    ensures
        toks_view(s).len() == s.len(),
        forall|i: int| 0 <= i < s.len() ==> toks_view(s)[i] == tok_view(s[i]),
    decreases s,
{
    if s.len() > 0 {
        lemma_toks_view(s.subrange(0, s.len() - 1));
    }
}

/// The source position of a token.
pub open spec fn tok_span(t: TokV) -> Span {
    match t {
        TokV::Ident(id) => id.span,
        TokV::Literal(l) => lit_span(l),
        TokV::Punct { span, .. } => span,
        TokV::Group { span, .. } => span,
    }
}

/// A literal carried to a new source position.
pub open spec fn lit_respan(l: LitV, sp: Span) -> LitV {
    match l {
        LitV::Str { text, .. } => LitV::Str { text, span: sp },
        LitV::ByteStr { bytes, .. } => LitV::ByteStr { bytes, span: sp },
        LitV::Int { value, .. } => LitV::Int { value, span: sp },
        LitV::Bool { value, .. } => LitV::Bool { value, span: sp },
    }
}

/// A token carried to a new source position, descending into groups: the
/// position tag of every produced token, nested ones included, becomes `sp`.
pub open spec fn respan_tok(t: TokV, sp: Span) -> TokV
    decreases t,
{
    match t {
        TokV::Ident(id) => TokV::Ident(IdentV { name: id.name, span: sp }),
        TokV::Literal(l) => TokV::Literal(lit_respan(l, sp)),
        TokV::Punct { ch, .. } => TokV::Punct { ch, span: sp },
        TokV::Group { delim, toks, .. } => TokV::Group {
            delim,
            toks: respan_toks(toks, sp),
            span: sp,
        },
    }
}

/// A token sequence carried to a new source position, element by element.
pub open spec fn respan_toks(s: Seq<TokV>, sp: Span) -> Seq<TokV>
    decreases s,
{
    if s.len() == 0 {
        Seq::empty()
    } else {
        respan_toks(s.subrange(0, s.len() - 1), sp).push(respan_tok(s.last(), sp))
    }
}

/// `respan_toks` maps element by element.
pub proof fn lemma_respan_toks(s: Seq<TokV>, sp: Span)
    ensures
        respan_toks(s, sp).len() == s.len(),
        forall|i: int| 0 <= i < s.len() ==> respan_toks(s, sp)[i] == respan_tok(s[i], sp),
    decreases s,
{
    if s.len() > 0 {
        lemma_respan_toks(s.subrange(0, s.len() - 1), sp);
    }
}

/// Rewrites one token's position tag to `span`, descending into groups, so
/// that diagnostics about the token keep pointing at the originating text.
pub fn respan_token_tree(t: &Tok, span: Span) -> (r: Tok)
    ensures
        r@ == respan_tok(t@, span),
    decreases *t,
{
    match t {
        Tok::Ident(id) => Tok::Ident(Ident { name: id.name.as_str().to_owned(), span }),
        Tok::Literal(l) => {
            let c = copy_lit(l);
            let r = match c {
                Lit::Str { text, .. } => Lit::Str { text, span },
                Lit::ByteStr { bytes, .. } => Lit::ByteStr { bytes, span },
                Lit::Int { value, .. } => Lit::Int { value, span },
                Lit::Bool { value, .. } => Lit::Bool { value, span },
            };
            Tok::Literal(r)
        },
        Tok::Punct { ch, .. } => Tok::Punct { ch: *ch, span },
        Tok::Group { delim, toks, span: _ } => {
            let ghost tvs = toks_view(toks@);
            proof {
                lemma_toks_view(toks@);
                lemma_respan_toks(tvs, span);
            }
            let mut out: Vec<Tok> = Vec::new();
            let n = toks.len();
            let mut i: usize = 0;
            while i < n
                invariant
                    t is Group,
                    t->Group_toks == *toks,
                    i <= n,
                    n == toks@.len(),
                    tvs == toks_view(toks@),
                    tvs.len() == n,
                    forall|j: int| 0 <= j < n ==> tvs[j] == tok_view(toks@[j]),
                    out@.len() == i,
                    forall|j: int| 0 <= j < i ==> out@[j]@ == respan_tok(tvs[j], span),
                decreases n - i,
            {
                proof {
                    assert(decreases_to!(*t => t->Group_toks));
                    assert(decreases_to!(t->Group_toks => t->Group_toks[i as int]));
                    assert(decreases_to!(*t => toks@[i as int]));
                }
                let rt = respan_token_tree(&toks[i], span);
                out.push(rt);
                i = i + 1;
            }
            let r = Tok::Group { delim: *delim, toks: out, span };
            proof {
                lemma_toks_view(out@);
                assert(toks_view(out@) =~= respan_toks(tvs, span));
            }
            r
        },
    }
}

/// Rewrites the position tags of a whole token sequence, as
/// `respan_token_tree` does for one token.
pub fn respan_token_stream(ts: &Vec<Tok>, span: Span) -> (r: Vec<Tok>)
    ensures
        toks_view(r@) == respan_toks(toks_view(ts@), span),
{
    let ghost tvs = toks_view(ts@);
    proof {
        lemma_toks_view(ts@);
        lemma_respan_toks(tvs, span);
    }
    let mut out: Vec<Tok> = Vec::new();
    let n = ts.len();
    let mut i: usize = 0;
    while i < n
        invariant
            i <= n,
            n == ts@.len(),
            tvs == toks_view(ts@),
            tvs.len() == n,
            forall|j: int| 0 <= j < n ==> tvs[j] == tok_view(ts@[j]),
            out@.len() == i,
            forall|j: int| 0 <= j < i ==> out@[j]@ == respan_tok(tvs[j], span),
        decreases n - i,
    {
        let rt = respan_token_tree(&ts[i], span);
        out.push(rt);
        i = i + 1;
    }
    proof {
        lemma_toks_view(out@);
        assert(toks_view(out@) =~= respan_toks(tvs, span));
    }
    out
}

/// A fresh token with the same model.
pub fn copy_tok(t: &Tok) -> (r: Tok)
    ensures
        r@ == t@,
    decreases *t,
{
    match t {
        Tok::Ident(id) => Tok::Ident(copy_ident(id)),
        Tok::Literal(l) => Tok::Literal(copy_lit(l)),
        Tok::Punct { ch, span } => Tok::Punct { ch: *ch, span: *span },
        Tok::Group { delim, toks, span } => {
            let ghost tvs = toks_view(toks@);
            proof {
                lemma_toks_view(toks@);
            }
            let mut out: Vec<Tok> = Vec::new();
            let n = toks.len();
            let mut i: usize = 0;
            #[verifier::loop_isolation(false)]
            while i < n
                invariant
                    i <= n,
                    out@.len() == i,
                    forall|j: int| 0 <= j < i ==> out@[j]@ == tvs[j],
                decreases n - i,
            {
                proof {
                    assert(decreases_to!(*t => t->Group_toks));
                    assert(decreases_to!(t->Group_toks => t->Group_toks[i as int]));
                    assert(decreases_to!(*t => toks@[i as int]));
                }
                let c = copy_tok(&toks[i]);
                out.push(c);
                i = i + 1;
            }
            let r = Tok::Group { delim: *delim, toks: out, span: *span };
            proof {
                lemma_toks_view(out@);
                assert(toks_view(out@) =~= tvs);
            }
            r
        },
    }
}

/// The text of one token as it stands in source.
pub open spec fn tok_text(t: TokV) -> Seq<char>
    decreases t,
{
    match t {
        TokV::Ident(id) => id.name,
        TokV::Literal(l) => lit_text(l),
        TokV::Punct { ch, .. } => seq![ch],
        TokV::Group { delim, toks, .. } => seq![delim_open(delim)] + toks_text(toks) + seq![
            delim_close(delim),
        ],
    }
}

/// The texts of a token sequence, joined with single spaces.
pub open spec fn toks_text(s: Seq<TokV>) -> Seq<char>
    decreases s,
{
    if s.len() == 0 {
        Seq::empty()
    } else if s.len() == 1 {
        tok_text(s[0])
    } else {
        toks_text(s.subrange(0, s.len() - 1)) + " "@ + tok_text(s[s.len() - 1])
    }
}

/// The opening character of a delimiter.
pub open spec fn delim_open(d: Delim) -> char {
    match d {
        Delim::Paren => '(',
        Delim::Brace => '{',
        Delim::Bracket => '[',
    }
}

/// The closing character of a delimiter.
pub open spec fn delim_close(d: Delim) -> char {
    match d {
        Delim::Paren => ')',
        Delim::Brace => '}',
        Delim::Bracket => ']',
    }
}

/// One step of `toks_text`, for the loop that renders a group.
proof fn lemma_toks_text_step(s: Seq<TokV>, i: int)
    requires
        0 <= i < s.len(),
    ensures
        toks_text(s.subrange(0, i + 1)) == if i == 0 {
            tok_text(s[0])
        } else {
            toks_text(s.subrange(0, i)) + " "@ + tok_text(s[i])
        },
{
    let t = s.subrange(0, i + 1);
    assert(t.subrange(0, i) =~= s.subrange(0, i));
    assert(t[i] == s[i]);
    if i == 0 {
        assert(toks_text(t) == tok_text(t[0]));
    }
}

/// Appends the text of one token, descending into groups.
pub fn render_tok_into(t: &Tok, out: &mut String)
    ensures
        final(out)@ == old(out)@ + tok_text(t@),
    decreases *t,
{
    match t {
        Tok::Ident(id) => {
            out.append(id.name.as_str());
        },
        Tok::Literal(l) => {
            crate::meta::render_lit(l, out);
        },
        Tok::Punct { ch, .. } => {
            push_char(out, *ch);
            assert(final(out)@ =~= old(out)@ + tok_text(t@));
        },
        Tok::Group { delim, toks, span: _ } => {
            let open_ch = match delim {
                Delim::Paren => '(',
                Delim::Brace => '{',
                Delim::Bracket => '[',
            };
            let close_ch = match delim {
                Delim::Paren => ')',
                Delim::Brace => '}',
                Delim::Bracket => ']',
            };
            push_char(out, open_ch);
            let ghost tvs = toks_view(toks@);
            proof {
                lemma_toks_view(toks@);
            }
            let ghost base = out@;
            let n = toks.len();
            let mut i: usize = 0;
            while i < n
                invariant
                    t is Group,
                    t->Group_toks == *toks,
                    i <= n,
                    n == toks@.len(),
                    tvs == toks_view(toks@),
                    tvs.len() == n,
                    forall|j: int| 0 <= j < n ==> tvs[j] == tok_view(toks@[j]),
                    out@ == base + toks_text(tvs.subrange(0, i as int)),
                decreases n - i,
            {
                if i > 0 {
                    out.append(" ");
                }
                proof {
                    assert(decreases_to!(*t => t->Group_toks));
                    assert(decreases_to!(t->Group_toks => t->Group_toks[i as int]));
                    assert(decreases_to!(*t => toks@[i as int]));
                }
                render_tok_into(&toks[i], out);
                proof {
                    lemma_toks_text_step(tvs, i as int);
                    assert(out@ =~= base + toks_text(tvs.subrange(0, i + 1)));
                }
                i = i + 1;
            }
            push_char(out, close_ch);
            proof {
                assert(tvs.subrange(0, n as int) =~= tvs);
                assert(final(out)@ =~= old(out)@ + tok_text(t@));
            }
        },
    }
}

/// The inverse reinterpretation: renders a token back to text and wraps it
/// as a string literal carrying the token's own source position, so that a
/// parsed construct can be re-embedded as generated metadata text.
pub fn lit_from_token(t: &Tok) -> (r: Lit)
    ensures
        r@ == (LitV::Str { text: tok_text(t@), span: tok_span(t@) }),
{
    let span = match t {
        Tok::Ident(id) => id.span,
        Tok::Literal(l) => l.span(),
        Tok::Punct { span, .. } => *span,
        Tok::Group { span, .. } => *span,
    };
    let mut text = String::new();
    render_tok_into(t, &mut text);
    proof {
        assert(text@ =~= tok_text(t@));
    }
    Lit::Str { text, span }
}

/// The payload of a plain string literal; any other literal kind is refused.
pub fn string_from_lit(lit: &Lit) -> (r: Result<String, crate::span::Diag>)
    ensures
        match r {
            Ok(s) => lit@ matches LitV::Str { text, .. } && s@ == text,
            Err(d) => !(lit@ is Str) && d.kind == crate::span::DiagKind::UnsupportedLiteralKind
                && d.span == lit_span(lit@) && d.msg@ == "unsupported literal"@,
        },
{
    match lit {
        Lit::Str { text, .. } => Ok(text.as_str().to_owned()),
        _ => Err(
            crate::span::Diag::new(
                crate::span::DiagKind::UnsupportedLiteralKind,
                lit.span(),
                "unsupported literal",
            ),
        ),
    }
}

} // verus!
