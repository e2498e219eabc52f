use vstd::prelude::*;
use crate::ir::{
    raw_variants_view, DiscrValue, DiscrValueV, FieldsShape, RawData, RawDataV, RawInput,
    RawInputV, RawVariant, RawVariantV,
};
use crate::meta::{
    copy_ident, copy_lit, entries_view, Ident, IdentV, Lit, LitV, MetaEntry, MetaPath, MetaV,
    PathV,
};
use crate::span::{Diag, DiagKind, Span};
use crate::text::str_eq;
use crate::meta::lemma_entries_view;
use crate::token::{
    copy_tok, lemma_toks_view, lit_from_token, tok_span, tok_text, toks_view, Delim, Tok, TokV,
};

verus! {

broadcast use vstd::seq::group_seq_axioms, vstd::std_specs::vec::group_vec_axioms;

/// The shorthand enum declaration: `[pub] enum Name: RawType -> Default {
/// Variant(CONST [= value]), ... }`. Parsed from tokens, lowered into an
/// equivalent attributed declaration, then discarded.
#[derive(Debug)]
pub struct EnumMacro {
    /// Outer attributes written on the declaration, in normalized form;
    /// lowering passes them through.
    pub attrs: Vec<MetaEntry>,
    /// Whether the declaration carries a visibility marker.
    pub vis_public: bool,
    pub ident: Ident,
    /// The raw representation type.
    pub repr: Ident,
    /// The default variant named after the arrow.
    pub default: Ident,
    pub variants: Vec<VariantMacro>,
}

/// One variant of the shorthand declaration.
#[derive(Debug)]
pub struct VariantMacro {
    pub attrs: Vec<MetaEntry>,
    pub ident: Ident,
    pub fields: FieldsMacro,
}

/// The parenthesized part of a shorthand variant: the name of the generated
/// constant wrapping the variant's value, and the optional explicit
/// discriminant expression as raw tokens.
#[derive(Debug)]
pub struct FieldsMacro {
    pub ident: Ident,
    pub discriminant: Option<Vec<Tok>>,
}

/// Mathematical model of the parenthesized part.
pub struct FieldsMacroV {
    pub ident: IdentV,
    pub discriminant: Option<Seq<TokV>>,
}

impl View for FieldsMacro {
    type V = FieldsMacroV;

    open spec fn view(&self) -> FieldsMacroV {
        FieldsMacroV {
            ident: self.ident@,
            discriminant: match self.discriminant {
                Some(ts) => Some(toks_view(ts@)),
                None => None,
            },
        }
    }
}

/// Mathematical model of a shorthand variant.
pub struct VariantMacroV {
    pub attrs: Seq<MetaV>,
    pub ident: IdentV,
    pub fields: FieldsMacroV,
}

impl View for VariantMacro {
    type V = VariantMacroV;

    open spec fn view(&self) -> VariantMacroV {
        VariantMacroV {
            attrs: entries_view(self.attrs@),
            ident: self.ident@,
            fields: self.fields@,
        }
    }
}

/// The models of a sequence of shorthand variants.
pub open spec fn vm_views(s: Seq<VariantMacro>) -> Seq<VariantMacroV> {
    s.map_values(|v: VariantMacro| v@)
}

/// Mathematical model of a shorthand declaration.
pub struct EnumMacroV {
    pub attrs: Seq<MetaV>,
    pub vis_public: bool,
    pub ident: IdentV,
    pub repr: IdentV,
    pub default: IdentV,
    pub variants: Seq<VariantMacroV>,
}

impl View for EnumMacro {
    type V = EnumMacroV;

    open spec fn view(&self) -> EnumMacroV {
        EnumMacroV {
            attrs: entries_view(self.attrs@),
            vis_public: self.vis_public,
            ident: self.ident@,
            repr: self.repr@,
            default: self.default@,
            variants: vm_views(self.variants@),
        }
    }
}

/// The position a missing token is reported at: the last token, or the
/// call site when there are none.
pub open spec fn end_span(s: Seq<TokV>) -> Span {
    if s.len() == 0 {
        Span { lo: 0, hi: 0 }
    } else {
        tok_span(s[s.len() - 1])
    }
}

/// Reads one identifier token at `i`.
pub open spec fn p_ident(s: Seq<TokV>, i: int) -> Result<(IdentV, int), (DiagKind, Span)> {
    if 0 <= i < s.len() {
        match s[i] {
            TokV::Ident(id) => Ok((id, i + 1)),
            _ => Err((DiagKind::MacroSyntaxError, tok_span(s[i]))),
        }
    } else {
        Err((DiagKind::MacroSyntaxError, end_span(s)))
    }
}

/// Reads one punctuation token at `i`.
pub open spec fn p_punct(s: Seq<TokV>, i: int, c: char) -> Result<int, (DiagKind, Span)> {
    if 0 <= i < s.len() {
        match s[i] {
            TokV::Punct { ch, span } => if ch == c {
                Ok(i + 1)
            } else {
                Err((DiagKind::MacroSyntaxError, span))
            },
            _ => Err((DiagKind::MacroSyntaxError, tok_span(s[i]))),
        }
    } else {
        Err((DiagKind::MacroSyntaxError, end_span(s)))
    }
}

/// Reads one keyword: an identifier token spelling exactly `w`.
pub open spec fn p_kw(s: Seq<TokV>, i: int, w: Seq<char>) -> Result<int, (DiagKind, Span)> {
    match p_ident(s, i) {
        Ok((id, j)) => if id.name == w {
            Ok(j)
        } else {
            Err((DiagKind::MacroSyntaxError, id.span))
        },
        Err(e) => Err(e),
    }
}

/// Skips a leading visibility marker: `pub`, optionally followed by a
/// parenthesized restriction.
pub open spec fn skip_vis(s: Seq<TokV>, i: int) -> int {
    if 0 <= i < s.len() {
        if s[i] matches TokV::Ident(id) && id.name == "pub"@ {
            if i + 1 < s.len() && (s[i + 1] matches TokV::Group { delim: Delim::Paren, .. }) {
                i + 2
            } else {
                i + 1
            }
        } else {
            i
        }
    } else {
        i
    }
}

/// What the parenthesized part of a variant parses to: a wrapped-constant
/// identifier, optionally followed by `=` and the raw discriminant tokens.
pub open spec fn parse_fields(s: Seq<TokV>, gspan: Span) -> Result<
    FieldsMacroV,
    (DiagKind, Span),
> {
    if s.len() == 0 {
        Err((DiagKind::MacroSyntaxError, gspan))
    } else {
        match s[0] {
            TokV::Ident(id) => if s.len() == 1 {
                Ok(FieldsMacroV { ident: id, discriminant: None })
            } else {
                match s[1] {
                    TokV::Punct { ch, span } => if ch == '=' {
                        if s.len() >= 3 {
                            Ok(
                                FieldsMacroV {
                                    ident: id,
                                    discriminant: Some(s.subrange(2, s.len() as int)),
                                },
                            )
                        } else {
                            Err((DiagKind::MacroSyntaxError, span))
                        }
                    } else {
                        Err((DiagKind::MacroSyntaxError, span))
                    },
                    _ => Err((DiagKind::MacroSyntaxError, tok_span(s[1]))),
                }
            },
            _ => Err((DiagKind::MacroSyntaxError, tok_span(s[0]))),
        }
    }
}

/// Whether an outer attribute starts at `j`: a `#` followed by a bracket
/// group.
pub open spec fn is_attr_start(s: Seq<TokV>, j: int) -> bool {
    &&& 0 <= j
    &&& j + 1 < s.len()
    &&& s[j] matches TokV::Punct { ch, .. } && ch == '#'
    &&& s[j + 1] matches TokV::Group { delim: Delim::Bracket, .. }
}

/// One metadata entry read from attribute-content tokens at `j`: a one-word
/// key, optionally followed by `= <literal>` or by a parenthesized list of
/// nested entries; yields the entry and the index after it.
pub open spec fn parse_entry_at(s: Seq<TokV>, j: int) -> Result<(MetaV, int), (DiagKind, Span)>
    decreases s, s.len() - j, 0int,
{
    if !(0 <= j < s.len()) {
        Err((DiagKind::MacroSyntaxError, end_span(s)))
    } else {
        match s[j] {
            TokV::Ident(id) => {
                let path = PathV { segments: seq![id.name], span: id.span };
                if j + 1 >= s.len() {
                    Ok((MetaV::Path(path), j + 1))
                } else {
                    match s[j + 1] {
                        TokV::Punct { ch, span } => if ch == '=' {
                            if j + 2 < s.len() {
                                match s[j + 2] {
                                    TokV::Literal(l) => Ok(
                                        (MetaV::NameValue { path, lit: l }, j + 3),
                                    ),
                                    _ => Err((DiagKind::MacroSyntaxError, tok_span(s[j + 2]))),
                                }
                            } else {
                                Err((DiagKind::MacroSyntaxError, span))
                            }
                        } else {
                            Ok((MetaV::Path(path), j + 1))
                        },
                        TokV::Group { delim, toks, span } => if delim == Delim::Paren {
                            match parse_entries_at(toks, 0) {
                                Ok(entries) => Ok((MetaV::List { path, entries, span }, j + 2)),
                                Err(e) => Err(e),
                            }
                        } else {
                            Err((DiagKind::MacroSyntaxError, span))
                        },
                        _ => Ok((MetaV::Path(path), j + 1)),
                    }
                }
            },
            _ => Err((DiagKind::MacroSyntaxError, tok_span(s[j]))),
        }
    }
}

/// The comma-separated metadata entries of a list group from `j` on, a
/// trailing comma allowed.
pub open spec fn parse_entries_at(s: Seq<TokV>, j: int) -> Result<Seq<MetaV>, (DiagKind, Span)>
    decreases s, s.len() - j, 1int,
{
    if !(0 <= j) || j >= s.len() {
        Ok(Seq::empty())
    } else {
        match parse_entry_at(s, j) {
            Ok((m, j2)) => if j2 >= s.len() {
                Ok(seq![m])
            } else {
                match s[j2] {
                    TokV::Punct { ch, span } => if ch == ',' {
                        // a parsed entry always consumes at least one
                        // token, so the clamp below never changes the index
                        match parse_entries_at(s, if j2 + 1 > j { j2 + 1 } else { j + 1 }) {
                            Ok(r) => Ok(seq![m] + r),
                            Err(e) => Err(e),
                        }
                    } else {
                        Err((DiagKind::MacroSyntaxError, span))
                    },
                    _ => Err((DiagKind::MacroSyntaxError, tok_span(s[j2]))),
                }
            },
            Err(e) => Err(e),
        }
    }
}

/// A successfully parsed entry consumes at least one token and stays
/// within the sequence.
pub proof fn lemma_parse_entry_progress(s: Seq<TokV>, j: int)
    ensures
        parse_entry_at(s, j) matches Ok(p) ==> j < p.1 <= s.len(),
{
}

/// A bracket group's tokens as exactly one metadata entry, nothing left
/// over.
pub open spec fn parse_full_entry(g: Seq<TokV>, gspan: Span) -> Result<MetaV, (DiagKind, Span)> {
    if g.len() == 0 {
        Err((DiagKind::MacroSyntaxError, gspan))
    } else {
        match parse_entry_at(g, 0) {
            Ok((m, j2)) => if j2 == g.len() {
                Ok(m)
            } else {
                Err((DiagKind::MacroSyntaxError, tok_span(g[j2])))
            },
            Err(e) => Err(e),
        }
    }
}

/// The outer attributes starting at `j`: each a `#` and a bracket group
/// holding one metadata entry; yields the entries and the index after the
/// attribute prefix.
pub open spec fn parse_attrs_at(s: Seq<TokV>, j: int) -> Result<
    (Seq<MetaV>, int),
    (DiagKind, Span),
>
    decreases s.len() - j,
{
    if !is_attr_start(s, j) {
        Ok((Seq::empty(), j))
    } else {
        match s[j + 1] {
            TokV::Group { toks, span, .. } => match parse_full_entry(toks, span) {
                Ok(m) => match parse_attrs_at(s, j + 2) {
                    Ok((rest, end)) => Ok((seq![m] + rest, end)),
                    Err(e) => Err(e),
                },
                Err(e) => Err(e),
            },
            _ => Ok((Seq::empty(), j)),
        }
    }
}

/// A successfully parsed attribute prefix never walks backwards or past
/// the end.
pub proof fn lemma_parse_attrs_progress(s: Seq<TokV>, j: int)
    requires
        j <= s.len(),
    ensures
        parse_attrs_at(s, j) matches Ok(p) ==> j <= p.1 <= s.len(),
    decreases s.len() - j,
{
    if is_attr_start(s, j) {
        lemma_parse_attrs_progress(s, j + 2);
    }
}

/// What the comma-separated variant list parses to from `j` on: each
/// variant is its outer attributes, an identifier and a parenthesized
/// field group; a trailing comma is allowed.
pub open spec fn parse_variants_at(s: Seq<TokV>, j: int) -> Result<
    Seq<VariantMacroV>,
    (DiagKind, Span),
>
    decreases s.len() - j,
{
    if !(0 <= j) || j >= s.len() {
        Ok(Seq::empty())
    } else {
        match parse_attrs_at(s, j) {
            Ok((attrs, j1)) => match p_ident(s, j1) {
                Ok((id, j1p)) => if j1p >= s.len() {
                    Err((DiagKind::MacroSyntaxError, end_span(s)))
                } else {
                    match s[j1p] {
                        TokV::Group { delim, toks, span } => if delim == Delim::Paren {
                            match parse_fields(toks, span) {
                                Ok(f) => {
                                    let v = VariantMacroV { attrs, ident: id, fields: f };
                                    if j1p + 1 >= s.len() {
                                        Ok(seq![v])
                                    } else {
                                        match s[j1p + 1] {
                                            TokV::Punct { ch, span: cspan } => if ch == ',' {
                                                // the attribute prefix and
                                                // the header always move
                                                // forward, so the clamp
                                                // never changes the index
                                                match parse_variants_at(
                                                    s,
                                                    if j1p + 2 > j {
                                                        j1p + 2
                                                    } else {
                                                        j + 1
                                                    },
                                                ) {
                                                    Ok(r) => Ok(seq![v] + r),
                                                    Err(e) => Err(e),
                                                }
                                            } else {
                                                Err((DiagKind::MacroSyntaxError, cspan))
                                            },
                                            _ => Err(
                                                (DiagKind::MacroSyntaxError, tok_span(s[j1p + 1])),
                                            ),
                                        }
                                    }
                                },
                                Err(e) => Err(e),
                            }
                        } else {
                            Err((DiagKind::MacroSyntaxError, span))
                        },
                        _ => Err((DiagKind::MacroSyntaxError, tok_span(s[j1p]))),
                    }
                },
                Err(e) => Err(e),
            },
            Err(e) => Err(e),
        }
    }
}

/// What the tokens after the header parse to: exactly one brace group
/// holding the variants, and nothing after it.
pub open spec fn parse_body(
    s: Seq<TokV>,
    i: int,
    attrs: Seq<MetaV>,
    vis: bool,
    ident: IdentV,
    repr: IdentV,
    dflt: IdentV,
) -> Result<EnumMacroV, (DiagKind, Span)> {
    if i >= s.len() {
        Err((DiagKind::MacroSyntaxError, end_span(s)))
    } else {
        match s[i] {
            TokV::Group { delim, toks, span } => if delim == Delim::Brace {
                if i == s.len() - 1 {
                    match parse_variants_at(toks, 0) {
                        Ok(vs) => Ok(
                            EnumMacroV {
                                attrs,
                                vis_public: vis,
                                ident,
                                repr,
                                default: dflt,
                                variants: vs,
                            },
                        ),
                        Err(e) => Err(e),
                    }
                } else {
                    Err((DiagKind::MacroSyntaxError, tok_span(s[i + 1])))
                }
            } else {
                Err((DiagKind::MacroSyntaxError, span))
            },
            _ => Err((DiagKind::MacroSyntaxError, tok_span(s[i]))),
        }
    }
}

/// What a whole token stream parses to as a shorthand declaration: outer
/// attributes, an optional visibility marker, the `enum` keyword, the name,
/// a colon, the representation type, an arrow, the default variant, and
/// the braced variant list; a mismatch at any expected token fails at that
/// token's position.
pub open spec fn parse_em(s: Seq<TokV>) -> Result<EnumMacroV, (DiagKind, Span)> {
    match parse_attrs_at(s, 0) {
        Err(e) => Err(e),
        Ok((attrs, ia)) => {
            let i0 = skip_vis(s, ia);
            let vis = i0 != ia;
            match p_kw(s, i0, "enum"@) {
                Err(e) => Err(e),
                Ok(i1) => match p_ident(s, i1) {
                    Err(e) => Err(e),
                    Ok((ident, i2)) => match p_punct(s, i2, ':') {
                        Err(e) => Err(e),
                        Ok(i3) => match p_ident(s, i3) {
                            Err(e) => Err(e),
                            Ok((repr, i4)) => match p_punct(s, i4, '-') {
                                Err(e) => Err(e),
                                Ok(i5) => match p_punct(s, i5, '>') {
                                    Err(e) => Err(e),
                                    Ok(i6) => match p_ident(s, i6) {
                                        Err(e) => Err(e),
                                        Ok((dflt, i7)) => parse_body(
                                            s,
                                            i7,
                                            attrs,
                                            vis,
                                            ident,
                                            repr,
                                            dflt,
                                        ),
                                    },
                                },
                            },
                        },
                    },
                },
            }
        },
    }
}

/// The source position of a token.
pub fn tok_span_exec(t: &Tok) -> (s: Span)
    ensures
        s == tok_span(t@),
{
    match t {
        Tok::Ident(id) => id.span,
        Tok::Literal(l) => l.span(),
        Tok::Punct { span, .. } => *span,
        Tok::Group { span, .. } => *span,
    }
}

/// The position a missing token is reported at.
fn end_span_exec(toks: &Vec<Tok>) -> (s: Span)
    ensures
        s == end_span(toks_view(toks@)),
{
    proof {
        lemma_toks_view(toks@);
    }
    if toks.len() == 0 {
        Span::call_site()
    } else {
        tok_span_exec(&toks[toks.len() - 1])
    }
}

/// Reads one identifier token, as `p_ident`.
fn expect_ident(toks: &Vec<Tok>, i: usize) -> (r: Result<(Ident, usize), Diag>)
    ensures
        match r {
            Ok(p) => p_ident(toks_view(toks@), i as int) == Ok::<(IdentV, int), (DiagKind, Span)>(
                (p.0@, p.1 as int),
            ) && p.1 == i + 1 && p.1 <= toks@.len(),
            Err(d) => p_ident(toks_view(toks@), i as int) matches Err(e) && e.0 == d.kind && e.1
                == d.span,
        },
{
    proof {
        lemma_toks_view(toks@);
    }
    if i < toks.len() {
        match &toks[i] {
            Tok::Ident(id) => Ok((copy_ident(id), i + 1)),
            t => Err(Diag::new(DiagKind::MacroSyntaxError, tok_span_exec(t), "expected an identifier")),
        }
    } else {
        Err(Diag::new(DiagKind::MacroSyntaxError, end_span_exec(toks), "expected an identifier"))
    }
}

/// Reads one punctuation token, as `p_punct`.
fn expect_punct(toks: &Vec<Tok>, i: usize, c: char, what: &str) -> (r: Result<usize, Diag>)
    ensures
        match r {
            Ok(j) => p_punct(toks_view(toks@), i as int, c) == Ok::<int, (DiagKind, Span)>(
                j as int,
            ) && j == i + 1 && j <= toks@.len(),
            Err(d) => p_punct(toks_view(toks@), i as int, c) matches Err(e) && e.0 == d.kind && e.1
                == d.span,
        },
{
    proof {
        lemma_toks_view(toks@);
    }
    if i < toks.len() {
        match &toks[i] {
            Tok::Punct { ch, span } => {
                if *ch == c {
                    Ok(i + 1)
                } else {
                    Err(Diag::new(DiagKind::MacroSyntaxError, *span, what))
                }
            },
            t => Err(Diag::new(DiagKind::MacroSyntaxError, tok_span_exec(t), what)),
        }
    } else {
        Err(Diag::new(DiagKind::MacroSyntaxError, end_span_exec(toks), what))
    }
}

/// Parses the parenthesized part of a variant, as `parse_fields`.
fn parse_fields_exec(toks: &Vec<Tok>, gspan: Span) -> (r: Result<FieldsMacro, Diag>)
    ensures
        match r {
            Ok(f) => parse_fields(toks_view(toks@), gspan) == Ok::<FieldsMacroV, (DiagKind, Span)>(
                f@,
            ),
            Err(d) => parse_fields(toks_view(toks@), gspan) matches Err(e) && e.0 == d.kind && e.1
                == d.span,
        },
{
    let ghost s = toks_view(toks@);
    proof {
        lemma_toks_view(toks@);
    }
    if toks.len() == 0 {
        return Err(Diag::new(DiagKind::MacroSyntaxError, gspan, "expected a wrapped constant"));
    }
    let id = match &toks[0] {
        Tok::Ident(id) => copy_ident(id),
        t => {
            return Err(
                Diag::new(DiagKind::MacroSyntaxError, tok_span_exec(t), "expected an identifier"),
            );
        },
    };
    if toks.len() == 1 {
        return Ok(FieldsMacro { ident: id, discriminant: None });
    }
    match &toks[1] {
        Tok::Punct { ch, span } => {
            if *ch != '=' {
                return Err(Diag::new(DiagKind::MacroSyntaxError, *span, "expected `=`"));
            }
            if toks.len() < 3 {
                return Err(Diag::new(DiagKind::MacroSyntaxError, *span, "expected an expression"));
            }
            let mut expr: Vec<Tok> = Vec::new();
            let n = toks.len();
            let mut i: usize = 2;
            #[verifier::loop_isolation(false)]
            while i < n
                invariant
                    2 <= i <= n,
                    expr@.len() == i - 2,
                    forall|j: int| 0 <= j < i - 2 ==> expr@[j]@ == s[j + 2],
                decreases n - i,
            {
                let c = copy_tok(&toks[i]);
                expr.push(c);
                i = i + 1;
            }
            proof {
                lemma_toks_view(expr@);
                assert(toks_view(expr@) =~= s.subrange(2, s.len() as int));
            }
            Ok(FieldsMacro { ident: id, discriminant: Some(expr) })
        },
        t => Err(Diag::new(DiagKind::MacroSyntaxError, tok_span_exec(t), "expected `=`")),
    }
}

/// Reads one metadata entry from attribute-content tokens, as
/// `parse_entry_at`.
fn parse_entry_exec(toks: &Vec<Tok>, j: usize) -> (r: Result<(MetaEntry, usize), Diag>)
    ensures
        match r {
            Ok(p) => parse_entry_at(toks_view(toks@), j as int) == Ok::<
                (MetaV, int),
                (DiagKind, Span),
            >((p.0@, p.1 as int)) && j < p.1 <= toks@.len(),
            Err(d) => parse_entry_at(toks_view(toks@), j as int) matches Err(e) && e.0 == d.kind
                && e.1 == d.span,
        },
    decreases toks@, toks@.len() - j, 0int,
{
    let ghost s = toks_view(toks@);
    proof {
        lemma_toks_view(toks@);
    }
    if j >= toks.len() {
        return Err(
            Diag::new(DiagKind::MacroSyntaxError, end_span_exec(toks), "expected a metadata key"),
        );
    }
    let id = match &toks[j] {
        Tok::Ident(id) => copy_ident(id),
        t => {
            return Err(
                Diag::new(DiagKind::MacroSyntaxError, tok_span_exec(t), "expected a metadata key"),
            );
        },
    };
    let path = word_path(id.name.as_str(), id.span);
    if j + 1 >= toks.len() {
        return Ok((MetaEntry::Path(path), j + 1));
    }
    match &toks[j + 1] {
        Tok::Punct { ch, span } => {
            if *ch == '=' {
                if j + 2 < toks.len() {
                    match &toks[j + 2] {
                        Tok::Literal(l) => Ok(
                            (MetaEntry::NameValue { path, lit: copy_lit(l) }, j + 3),
                        ),
                        t => Err(
                            Diag::new(
                                DiagKind::MacroSyntaxError,
                                tok_span_exec(t),
                                "expected a literal value",
                            ),
                        ),
                    }
                } else {
                    Err(Diag::new(DiagKind::MacroSyntaxError, *span, "expected a literal value"))
                }
            } else {
                Ok((MetaEntry::Path(path), j + 1))
            }
        },
        Tok::Group { delim, toks: inner, span } => {
            if matches!(delim, Delim::Paren) {
                proof {
                    assert(decreases_to!(toks@ => toks@[j + 1]));
                    assert(decreases_to!(toks@[j + 1] => inner@));
                }
                match parse_entries_exec(inner) {
                    Ok(entries) => {
                        let m = MetaEntry::List { path, entries, span: *span };
                        Ok((m, j + 2))
                    },
                    Err(d) => Err(d),
                }
            } else {
                Err(
                    Diag::new(
                        DiagKind::MacroSyntaxError,
                        *span,
                        "expected a parenthesized list",
                    ),
                )
            }
        },
        _ => Ok((MetaEntry::Path(path), j + 1)),
    }
}

/// Reads the comma-separated entries of a list group, as
/// `parse_entries_at` from the start of the group.
fn parse_entries_exec(toks: &Vec<Tok>) -> (r: Result<Vec<MetaEntry>, Diag>)
    ensures
        match r {
            Ok(v) => parse_entries_at(toks_view(toks@), 0) == Ok::<Seq<MetaV>, (DiagKind, Span)>(
                entries_view(v@),
            ),
            Err(d) => parse_entries_at(toks_view(toks@), 0) matches Err(e) && e.0 == d.kind && e.1
                == d.span,
        },
    decreases toks@, toks@.len(), 1int,
{
    let ghost s = toks_view(toks@);
    proof {
        lemma_toks_view(toks@);
    }
    let n = toks.len();
    let mut out: Vec<MetaEntry> = Vec::new();
    let mut j: usize = 0;
    proof {
        assert(entries_view(out@) =~= Seq::<MetaV>::empty());
        assert forall|t: Seq<MetaV>| #[trigger] (Seq::<MetaV>::empty() + t) == t by {
            assert(Seq::<MetaV>::empty() + t =~= t);
        }
    }
    #[verifier::loop_isolation(false)]
    while j < n
        invariant
            j <= n,
            parse_entries_at(s, 0) == (match parse_entries_at(s, j as int) {
                Ok(t) => Ok::<Seq<MetaV>, (DiagKind, Span)>(entries_view(out@) + t),
                Err(e) => Err(e),
            }),
        decreases n - j,
    {
        let (m, j2) = match parse_entry_exec(toks, j) {
            Ok(p) => p,
            Err(d) => {
                return Err(d);
            },
        };
        let ghost before = out@;
        let ghost mv = m@;
        out.push(m);
        proof {
            assert(out@.subrange(0, out@.len() - 1) =~= before);
            assert(entries_view(out@) =~= entries_view(before).push(mv));
            assert forall|t: Seq<MetaV>| #[trigger] (entries_view(before) + (seq![mv] + t))
                == entries_view(out@) + t by {
                assert(entries_view(before) + (seq![mv] + t) =~= entries_view(out@) + t);
            }
            assert(entries_view(before) + seq![mv] =~= entries_view(out@));
        }
        if j2 >= n {
            j = n;
        } else {
            match &toks[j2] {
                Tok::Punct { ch, span } => {
                    if *ch != ',' {
                        return Err(Diag::new(DiagKind::MacroSyntaxError, *span, "expected `,`"));
                    }
                },
                t => {
                    return Err(
                        Diag::new(DiagKind::MacroSyntaxError, tok_span_exec(t), "expected `,`"),
                    );
                },
            }
            j = j2 + 1;
        }
    }
    proof {
        assert(parse_entries_at(s, n as int) == Ok::<Seq<MetaV>, (DiagKind, Span)>(Seq::empty()));
        assert(entries_view(out@) + Seq::<MetaV>::empty() =~= entries_view(out@));
    }
    Ok(out)
}

/// Reads a bracket group as exactly one metadata entry, as
/// `parse_full_entry`.
fn parse_full_entry_exec(g: &Vec<Tok>, gspan: Span) -> (r: Result<MetaEntry, Diag>)
    ensures
        match r {
            Ok(m) => parse_full_entry(toks_view(g@), gspan) == Ok::<MetaV, (DiagKind, Span)>(m@),
            Err(d) => parse_full_entry(toks_view(g@), gspan) matches Err(e) && e.0 == d.kind && e.1
                == d.span,
        },
{
    proof {
        lemma_toks_view(g@);
    }
    if g.len() == 0 {
        return Err(Diag::new(DiagKind::MacroSyntaxError, gspan, "expected a metadata entry"));
    }
    match parse_entry_exec(g, 0) {
        Ok((m, j2)) => {
            if j2 == g.len() {
                Ok(m)
            } else {
                Err(
                    Diag::new(
                        DiagKind::MacroSyntaxError,
                        tok_span_exec(&g[j2]),
                        "unexpected trailing tokens",
                    ),
                )
            }
        },
        Err(d) => Err(d),
    }
}

/// Reads the outer attributes starting at `j`, as `parse_attrs_at`.
fn parse_attrs_exec(toks: &Vec<Tok>, j: usize) -> (r: Result<(Vec<MetaEntry>, usize), Diag>)
    requires
        j <= toks@.len(),
    ensures
        match r {
            Ok(p) => parse_attrs_at(toks_view(toks@), j as int) == Ok::<
                (Seq<MetaV>, int),
                (DiagKind, Span),
            >((entries_view(p.0@), p.1 as int)) && j <= p.1 <= toks@.len(),
            Err(d) => parse_attrs_at(toks_view(toks@), j as int) matches Err(e) && e.0 == d.kind
                && e.1 == d.span,
        },
{
    let ghost s = toks_view(toks@);
    proof {
        lemma_toks_view(toks@);
    }
    let n = toks.len();
    let mut out: Vec<MetaEntry> = Vec::new();
    let mut i: usize = j;
    proof {
        assert(entries_view(out@) =~= Seq::<MetaV>::empty());
        assert forall|t: Seq<MetaV>| #[trigger] (Seq::<MetaV>::empty() + t) == t by {
            assert(Seq::<MetaV>::empty() + t =~= t);
        }
    }
    #[verifier::loop_isolation(false)]
    while i < n && i + 1 < n && is_attr_start_exec(toks, i)
        invariant
            j <= i <= n,
            parse_attrs_at(s, j as int) == (match parse_attrs_at(s, i as int) {
                Ok((rest, end)) => Ok::<(Seq<MetaV>, int), (DiagKind, Span)>(
                    (entries_view(out@) + rest, end),
                ),
                Err(e) => Err(e),
            }),
        decreases n - i,
    {
        proof {
            assert(i < n && i + 1 < n);
        }
        let (m, gspan) = match &toks[i + 1] {
            Tok::Group { toks: inner, span, .. } => {
                match parse_full_entry_exec(inner, *span) {
                    Ok(m) => (m, *span),
                    Err(d) => {
                        return Err(d);
                    },
                }
            },
            _ => {
                proof {
                    assert(false);
                }
                return Err(Diag::new(DiagKind::MacroSyntaxError, Span::call_site(), "expected `[`"));
            },
        };
        let ghost before = out@;
        let ghost mv = m@;
        out.push(m);
        proof {
            assert(out@.subrange(0, out@.len() - 1) =~= before);
            assert(entries_view(out@) =~= entries_view(before).push(mv));
            assert forall|t: Seq<MetaV>| #[trigger] (entries_view(before) + (seq![mv] + t))
                == entries_view(out@) + t by {
                assert(entries_view(before) + (seq![mv] + t) =~= entries_view(out@) + t);
            }
        }
        i = i + 2;
    }
    proof {
        assert(!is_attr_start(s, i as int));
        assert(parse_attrs_at(s, i as int) == Ok::<(Seq<MetaV>, int), (DiagKind, Span)>(
            (Seq::empty(), i as int),
        ));
        assert(entries_view(out@) + Seq::<MetaV>::empty() =~= entries_view(out@));
    }
    Ok((out, i))
}

/// Whether an outer attribute starts at `i`, as `is_attr_start`.
fn is_attr_start_exec(toks: &Vec<Tok>, i: usize) -> (r: bool)
    requires
        i + 1 < toks@.len(),
    ensures
        r == is_attr_start(toks_view(toks@), i as int),
{
    proof {
        lemma_toks_view(toks@);
    }
    let n = toks.len();
    proof {
        assert(i + 1 < n);
    }
    let hash = match &toks[i] {
        Tok::Punct { ch, .. } => *ch == '#',
        _ => false,
    };
    if !hash {
        return false;
    }
    match &toks[i + 1] {
        Tok::Group { delim, .. } => matches!(delim, Delim::Bracket),
        _ => false,
    }
}

/// Reads the comma-separated variant list, as `parse_variants_at` from the
/// start of the brace group.
fn parse_variants_exec(toks: &Vec<Tok>) -> (r: Result<Vec<VariantMacro>, Diag>)
    ensures
        match r {
            Ok(v) => parse_variants_at(toks_view(toks@), 0) == Ok::<
                Seq<VariantMacroV>,
                (DiagKind, Span),
            >(vm_views(v@)),
            Err(d) => parse_variants_at(toks_view(toks@), 0) matches Err(e) && e.0 == d.kind
                && e.1 == d.span,
        },
{
    let ghost s = toks_view(toks@);
    proof {
        lemma_toks_view(toks@);
    }
    let n = toks.len();
    let mut out: Vec<VariantMacro> = Vec::new();
    let mut j: usize = 0;
    proof {
        assert(vm_views(out@) =~= Seq::<VariantMacroV>::empty());
        assert forall|t: Seq<VariantMacroV>| #[trigger] (Seq::<VariantMacroV>::empty() + t)
            == t by {
            assert(Seq::<VariantMacroV>::empty() + t =~= t);
        }
    }
    #[verifier::loop_isolation(false)]
    while j < n
        invariant
            j <= n,
            parse_variants_at(s, 0) == (match parse_variants_at(s, j as int) {
                Ok(t) => Ok::<Seq<VariantMacroV>, (DiagKind, Span)>(vm_views(out@) + t),
                Err(e) => Err(e),
            }),
        decreases n - j,
    {
        let (vattrs, j1) = match parse_attrs_exec(toks, j) {
            Ok(p) => p,
            Err(d) => {
                return Err(d);
            },
        };
        let (id, j1p) = match expect_ident(toks, j1) {
            Ok(p) => p,
            Err(d) => {
                return Err(d);
            },
        };
        if j1p >= n {
            return Err(
                Diag::new(
                    DiagKind::MacroSyntaxError,
                    end_span_exec(toks),
                    "expected a parenthesized field",
                ),
            );
        }
        let f = match &toks[j1p] {
            Tok::Group { delim, toks: inner, span } => {
                if !matches!(delim, Delim::Paren) {
                    return Err(
                        Diag::new(
                            DiagKind::MacroSyntaxError,
                            *span,
                            "expected a parenthesized field",
                        ),
                    );
                }
                match parse_fields_exec(inner, *span) {
                    Ok(f) => f,
                    Err(d) => {
                        return Err(d);
                    },
                }
            },
            t => {
                return Err(
                    Diag::new(
                        DiagKind::MacroSyntaxError,
                        tok_span_exec(t),
                        "expected a parenthesized field",
                    ),
                );
            },
        };
        let v = VariantMacro { attrs: vattrs, ident: id, fields: f };
        let ghost before = out@;
        let ghost vv = v@;
        out.push(v);
        proof {
            assert(vm_views(out@) =~= vm_views(before).push(vv));
            assert forall|t: Seq<VariantMacroV>| #[trigger] (vm_views(before) + (seq![vv] + t))
                == vm_views(out@) + t by {
                assert(vm_views(before) + (seq![vv] + t) =~= vm_views(out@) + t);
            }
            assert(vm_views(before) + seq![vv] =~= vm_views(out@));
        }
        if j1p + 1 >= n {
            j = n;
        } else {
            match &toks[j1p + 1] {
                Tok::Punct { ch, span } => {
                    if *ch != ',' {
                        return Err(Diag::new(DiagKind::MacroSyntaxError, *span, "expected `,`"));
                    }
                },
                t => {
                    return Err(
                        Diag::new(DiagKind::MacroSyntaxError, tok_span_exec(t), "expected `,`"),
                    );
                },
            }
            j = j1p + 2;
        }
    }
    proof {
        assert(parse_variants_at(s, n as int) == Ok::<Seq<VariantMacroV>, (DiagKind, Span)>(
            Seq::empty(),
        ));
        assert(vm_views(out@) + Seq::<VariantMacroV>::empty() =~= vm_views(out@));
    }
    Ok(out)
}

/// Parses a whole token stream as a shorthand declaration, exactly as
/// `parse_em` says: the first token that breaks the grammar fails with a
/// syntax error anchored at its position and naming what was expected.
#[verifier::rlimit(50)]
pub fn parse_enum_macro(toks: &Vec<Tok>) -> (r: Result<EnumMacro, Diag>)
    ensures
        match r {
            Ok(em) => parse_em(toks_view(toks@)) == Ok::<EnumMacroV, (DiagKind, Span)>(em@),
            Err(d) => parse_em(toks_view(toks@)) matches Err(e) && e.0 == d.kind && e.1 == d.span,
        },
{
    let ghost s = toks_view(toks@);
    proof {
        lemma_toks_view(toks@);
    }
    let n = toks.len();
    let (attrs_decl, ia) = match parse_attrs_exec(toks, 0) {
        Ok(p) => p,
        Err(d) => {
            return Err(d);
        },
    };
    let mut i: usize = ia;
    let mut vis_public = false;
    if i < n {
        let is_pub = match &toks[i] {
            Tok::Ident(id) => str_eq(id.name.as_str(), "pub"),
            _ => false,
        };
        if is_pub {
            vis_public = true;
            i = ia + 1;
            if ia + 1 < n {
                let restr = match &toks[ia + 1] {
                    Tok::Group { delim, .. } => matches!(delim, Delim::Paren),
                    _ => false,
                };
                if restr {
                    i = ia + 2;
                }
            }
        }
    }
    proof {
        assert(i as int == skip_vis(s, ia as int));
        assert(vis_public == (skip_vis(s, ia as int) != ia as int));
    }
    let i1 = match expect_ident(toks, i) {
        Ok((kw, j)) => {
            if !str_eq(kw.name.as_str(), "enum") {
                return Err(Diag::new(DiagKind::MacroSyntaxError, kw.span, "expected `enum`"));
            }
            j
        },
        Err(d) => {
            return Err(d);
        },
    };
    let (ident, i2) = match expect_ident(toks, i1) {
        Ok(p) => p,
        Err(d) => {
            return Err(d);
        },
    };
    let i3 = match expect_punct(toks, i2, ':', "expected `:`") {
        Ok(j) => j,
        Err(d) => {
            return Err(d);
        },
    };
    let (repr, i4) = match expect_ident(toks, i3) {
        Ok(p) => p,
        Err(d) => {
            return Err(d);
        },
    };
    let i5 = match expect_punct(toks, i4, '-', "expected `->`") {
        Ok(j) => j,
        Err(d) => {
            return Err(d);
        },
    };
    let i6 = match expect_punct(toks, i5, '>', "expected `->`") {
        Ok(j) => j,
        Err(d) => {
            return Err(d);
        },
    };
    let (dflt, i7) = match expect_ident(toks, i6) {
        Ok(p) => p,
        Err(d) => {
            return Err(d);
        },
    };
    if i7 >= n {
        return Err(Diag::new(DiagKind::MacroSyntaxError, end_span_exec(toks), "expected `{`"));
    }
    match &toks[i7] {
        Tok::Group { delim, toks: inner, span } => {
            if !matches!(delim, Delim::Brace) {
                return Err(Diag::new(DiagKind::MacroSyntaxError, *span, "expected `{`"));
            }
            if i7 != n - 1 {
                return Err(
                    Diag::new(
                        DiagKind::MacroSyntaxError,
                        tok_span_exec(&toks[i7 + 1]),
                        "unexpected trailing tokens",
                    ),
                );
            }
            match parse_variants_exec(inner) {
                Ok(vs) => {
                    let em = EnumMacro {
                        attrs: attrs_decl,
                        vis_public,
                        ident,
                        repr,
                        default: dflt,
                        variants: vs,
                    };
                    Ok(em)
                },
                Err(d) => Err(d),
            }
        },
        t => Err(Diag::new(DiagKind::MacroSyntaxError, tok_span_exec(t), "expected `{`")),
    }
}

/// The `repr(<type>)` attribute of the lowered declaration; it stands
/// outside the reserved namespace and passes through extraction.
pub open spec fn repr_attr(repr: IdentV) -> MetaV {
    MetaV::List {
        path: PathV { segments: seq!["repr"@], span: repr.span },
        entries: seq![
            MetaV::Path(PathV { segments: seq![repr.name], span: repr.span }),
        ],
        span: repr.span,
    }
}

/// The `derive(EnumRepr)` attribute of the lowered declaration.
pub open spec fn derive_attr(ident: IdentV) -> MetaV {
    MetaV::List {
        path: PathV { segments: seq!["derive"@], span: ident.span },
        entries: seq![
            MetaV::Path(PathV { segments: seq!["EnumRepr"@], span: ident.span }),
        ],
        span: ident.span,
    }
}

/// The `enum_repr(default = "<variant>")` attribute: the default-variant
/// identifier re-embedded as a string literal carrying the identifier's own
/// position, via the inverse reinterpretation.
pub open spec fn default_attr(dflt: IdentV) -> MetaV {
    MetaV::List {
        path: PathV { segments: seq!["enum_repr"@], span: dflt.span },
        entries: seq![
            MetaV::NameValue {
                path: PathV { segments: seq!["default"@], span: dflt.span },
                lit: LitV::Str { text: dflt.name, span: dflt.span },
            },
        ],
        span: dflt.span,
    }
}

/// The `enum_repr(discr = "<constant>")` attribute a lowered variant
/// carries: its wrapped-constant identifier re-embedded as a string
/// literal at the identifier's own position.
pub open spec fn discr_attr(wrapped: IdentV) -> MetaV {
    MetaV::List {
        path: PathV { segments: seq!["enum_repr"@], span: wrapped.span },
        entries: seq![
            MetaV::NameValue {
                path: PathV { segments: seq!["discr"@], span: wrapped.span },
                lit: LitV::Str { text: wrapped.name, span: wrapped.span },
            },
        ],
        span: wrapped.span,
    }
}

/// The value of a shorthand discriminant expression: a single integer
/// literal is taken as a numeric value; any other expression is carried
/// through as raw tokens, its value not statically known.
pub open spec fn eval_discr(d: Option<Seq<TokV>>) -> Option<DiscrValueV> {
    match d {
        None => None,
        Some(ts) => if ts.len() == 1 {
            match ts[0] {
                TokV::Literal(l) => match l {
                    LitV::Int { value, .. } => Some(DiscrValueV::Value(value)),
                    _ => Some(DiscrValueV::Raw(ts)),
                },
                _ => Some(DiscrValueV::Raw(ts)),
            }
        } else {
            Some(DiscrValueV::Raw(ts))
        },
    }
}

/// What lowering one shorthand variant yields: its attributes gain the
/// `discr` entry for the wrapped constant, the fields become a unit shape,
/// and the explicit discriminant carries over, raw expressions untouched.
pub open spec fn lower_variant(vm: VariantMacroV) -> RawVariantV {
    RawVariantV {
        attrs: vm.attrs.push(discr_attr(vm.fields.ident)),
        ident: vm.ident,
        fields: FieldsShape::Unit,
        discr: eval_discr(vm.fields.discriminant),
    }
}

/// Lowering the variants in declaration order.
pub open spec fn lower_variants(s: Seq<VariantMacroV>) -> Seq<RawVariantV> {
    s.map_values(|vm: VariantMacroV| lower_variant(vm))
}

/// What lowering a whole shorthand declaration yields: an equivalent
/// attributed declaration carrying the declaration's own attributes, the
/// representation type, the derive marker and the default metadata, ready
/// to re-enter standard assembly.
pub open spec fn lower_em(em: EnumMacroV) -> RawInputV {
    RawInputV {
        attrs: em.attrs + seq![
            repr_attr(em.repr),
            derive_attr(em.ident),
            default_attr(em.default),
        ],
        ident: em.ident,
        generics: Seq::empty(),
        data: RawDataV::EnumData { variants: lower_variants(em.variants) },
    }
}

/// Builds a one-word key path.
fn word_path(w: &str, span: Span) -> (p: MetaPath)
    ensures
        p@ == (PathV { segments: seq![w@], span }),
{
    let mut segments: Vec<String> = Vec::new();
    segments.push(w.to_owned());
    let p = MetaPath { segments, span };
    proof {
        assert(p@.segments =~= seq![w@]);
    }
    p
}

/// Builds an `enum_repr(<key> = "<name>")` attribute, re-embedding the
/// identifier as a string literal through the inverse reinterpretation.
fn make_ident_attr(key: &str, id: &Ident) -> (m: MetaEntry)
    ensures
        m@ == (MetaV::List {
            path: PathV { segments: seq!["enum_repr"@], span: id.span },
            entries: seq![
                MetaV::NameValue {
                    path: PathV { segments: seq![key@], span: id.span },
                    lit: LitV::Str { text: id@.name, span: id.span },
                },
            ],
            span: id.span,
        }),
{
    let tokid = Tok::Ident(copy_ident(id));
    let lit = lit_from_token(&tokid);
    proof {
        assert(tok_text(tokid@) == id@.name);
        assert(tok_span(tokid@) == id.span);
    }
    let nv = MetaEntry::NameValue { path: word_path(key, id.span), lit };
    let mut entries: Vec<MetaEntry> = Vec::new();
    entries.push(nv);
    proof {
        lemma_entries_view(entries@);
    }
    let m = MetaEntry::List { path: word_path("enum_repr", id.span), entries, span: id.span };
    proof {
        assert(m@ matches MetaV::List { entries: es, .. } && es =~= seq![
            MetaV::NameValue {
                path: PathV { segments: seq![key@], span: id.span },
                lit: LitV::Str { text: id@.name, span: id.span },
            },
        ]);
    }
    m
}

/// Builds a `<word>(<name>)` attribute wrapping a bare path.
fn make_path_attr(word: &str, name: &str, span: Span) -> (m: MetaEntry)
    ensures
        m@ == (MetaV::List {
            path: PathV { segments: seq![word@], span },
            entries: seq![MetaV::Path(PathV { segments: seq![name@], span })],
            span,
        }),
{
    let inner = MetaEntry::Path(word_path(name, span));
    let mut entries: Vec<MetaEntry> = Vec::new();
    entries.push(inner);
    proof {
        lemma_entries_view(entries@);
    }
    let m = MetaEntry::List { path: word_path(word, span), entries, span };
    proof {
        assert(m@ matches MetaV::List { entries: es, .. } && es =~= seq![
            MetaV::Path(PathV { segments: seq![name@], span }),
        ]);
    }
    m
}

/// Lowers one shorthand variant, as `lower_variant` says.
fn lower_variant_exec(v: VariantMacro) -> (r: RawVariant)
    ensures
        r@ == lower_variant(v@),
{
    let VariantMacro { attrs, ident, fields } = v;
    let FieldsMacro { ident: wrapped, discriminant } = fields;
    let d: Option<DiscrValue> = match discriminant {
        None => None,
        Some(ts) => {
            proof {
                lemma_toks_view(ts@);
            }
            if ts.len() == 1 {
                let mut val: Option<u64> = None;
                match &ts[0] {
                    Tok::Literal(Lit::Int { value, .. }) => {
                        val = Some(*value);
                    },
                    _ => {},
                }
                proof {
                    assert(toks_view(ts@)[0] == ts@[0]@);
                }
                match val {
                    Some(x) => Some(DiscrValue::Value(x)),
                    None => Some(DiscrValue::Raw(ts)),
                }
            } else {
                Some(DiscrValue::Raw(ts))
            }
        },
    };
    let attr = make_ident_attr("discr", &wrapped);
    let ghost before = attrs@;
    let mut attrs = attrs;
    attrs.push(attr);
    proof {
        assert(attrs@.subrange(0, attrs@.len() - 1) =~= before);
        assert(entries_view(attrs@) =~= entries_view(before).push(discr_attr(wrapped@)));
    }
    RawVariant { attrs, ident, fields: FieldsShape::Unit, discr: d }
}

/// Lowers a parsed shorthand declaration into an equivalent attributed
/// declaration, exactly as `lower_em` says: the result re-enters the
/// standard extraction and assembly pipeline.
pub fn lower_enum_macro(em: EnumMacro) -> (r: RawInput)
    ensures
        r@ == lower_em(em@),
{
    let EnumMacro { attrs, vis_public: _, ident, repr, default, variants } = em;
    let ghost allv = vm_views(variants@);
    let mut out: Vec<RawVariant> = Vec::new();
    let mut rest = variants;
    proof {
        assert(vm_views(rest@) =~= allv.subrange(0, allv.len() as int));
    }
    #[verifier::loop_isolation(false)]
    while rest.len() > 0
        invariant
            out@.len() + rest@.len() == allv.len(),
            vm_views(rest@) == allv.subrange(out@.len() as int, allv.len() as int),
            forall|j: int| 0 <= j < out@.len() ==> out@[j]@ == lower_variant(allv[j]),
        decreases rest.len(),
    {
        let ghost rest0 = rest@;
        let ghost k = out@.len() as int;
        let v = rest.remove(0);
        proof {
            assert(rest@ =~= rest0.subrange(1, rest0.len() as int));
            assert(vm_views(rest@) =~= vm_views(rest0).subrange(1, rest0.len() as int));
            assert(vm_views(rest@) =~= allv.subrange(k + 1, allv.len() as int));
            assert(vm_views(rest0)[0] == v@);
            assert(v@ == allv[k]);
        }
        let done = lower_variant_exec(v);
        out.push(done);
    }
    proof {
        assert(raw_variants_view(out@).len() == lower_variants(allv).len());
        assert forall|j: int| 0 <= j < out@.len() implies raw_variants_view(out@)[j]
            == lower_variants(allv)[j] by {
            assert(raw_variants_view(out@)[j] == out@[j]@);
            assert(lower_variants(allv)[j] == lower_variant(allv[j]));
        }
        assert(raw_variants_view(out@) =~= lower_variants(allv));
    }
    let ghost attrs0 = entries_view(attrs@);
    let mut attrs = attrs;
    let ghost b0 = attrs@;
    attrs.push(make_path_attr("repr", repr.name.as_str(), repr.span));
    proof {
        assert(attrs@.subrange(0, attrs@.len() - 1) =~= b0);
        assert(entries_view(attrs@) =~= attrs0.push(repr_attr(repr@)));
    }
    let ghost b1 = attrs@;
    attrs.push(make_path_attr("derive", "EnumRepr", ident.span));
    proof {
        assert(attrs@.subrange(0, attrs@.len() - 1) =~= b1);
        assert(entries_view(attrs@) =~= attrs0.push(repr_attr(repr@)).push(derive_attr(ident@)));
    }
    let ghost b2 = attrs@;
    attrs.push(make_ident_attr("default", &default));
    proof {
        assert(attrs@.subrange(0, attrs@.len() - 1) =~= b2);
        assert(entries_view(attrs@) =~= attrs0.push(repr_attr(repr@)).push(
            derive_attr(ident@),
        ).push(default_attr(default@)));
        assert(attrs0.push(repr_attr(repr@)).push(derive_attr(ident@)).push(default_attr(default@))
            =~= attrs0 + seq![repr_attr(repr@), derive_attr(ident@), default_attr(default@)]);
    }
    let inp = RawInput { attrs, ident, generics: Vec::new(), data: RawData::EnumData {
        variants: out,
    } };
    proof {
        assert(inp@.generics =~= Seq::<Seq<char>>::empty());
    }
    inp
}

} // verus!
