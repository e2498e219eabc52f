use vstd::prelude::*;
use vstd::string::StringExecFns;
use crate::case::{invalid_rule_text, rule_of_text, RenameRule};
use crate::extract::is_reserved;
use crate::meta::{
    entries_view, lemma_entries_view, list_texts, lit_span, lit_text, path_text,
    render_lit, render_path, Ident, IdentV, Lit, LitV, MetaEntry, MetaPath, MetaV, PathV,
};
use crate::reinterpret::{is_ident_text, reinterp_ident, token_from_lit, token_from_str};
use crate::span::{Diag, DiagKind, Span};
use crate::symbol::{
    path_is, path_is_word, sym_attr, sym_attr_nest, sym_default, sym_discr, sym_from, sym_id,
    sym_into, sym_other, sym_rename, sym_rename_all, sym_repr, sym_try_from,
};

verus! {

broadcast use vstd::seq::group_seq_axioms, vstd::std_specs::vec::group_vec_axioms;

/// A strongly-typed, closed set of recognized options. A bucket is filled by
/// converting normalized metadata entries one by one, deduplicating options
/// that are structurally equal, and refusing any unrecognized key with a
/// positioned diagnostic. Deduplication is structural only: two options with
/// the same key but different payloads are both kept, and detecting that
/// semantic conflict is left to the consumer of the bucket.
pub trait AttributesBucket: Sized + View {
    /// What converting a `key = literal` entry yields.
    spec fn of_name_value(path: PathV, lit: LitV) -> Result<Self::V, (DiagKind, Span)>;

    /// What converting a `key(...)` entry yields.
    spec fn of_list(path: PathV, entries: Seq<MetaV>, span: Span) -> Result<
        Self::V,
        (DiagKind, Span),
    >;

    /// Structural equality of two options, source positions ignored.
    spec fn option_eqv(a: Self::V, b: Self::V) -> bool;

    /// Converts a `key = literal` entry, as `of_name_value` says.
    fn from_name_value(path: &MetaPath, lit: &Lit) -> (r: Result<Self, Diag>)
        ensures
            match r {
                Ok(b) => Self::of_name_value(path@, lit@) == Ok::<Self::V, (DiagKind, Span)>(b@),
                Err(d) => Self::of_name_value(path@, lit@) matches Err(e) && e.0 == d.kind && e.1
                    == d.span,
            },
    ;

    /// Converts a `key(...)` entry, as `of_list` says.
    fn from_list(path: &MetaPath, entries: &Vec<MetaEntry>, span: Span) -> (r: Result<Self, Diag>)
        ensures
            match r {
                Ok(b) => Self::of_list(path@, entries_view(entries@), span) == Ok::<
                    Self::V,
                    (DiagKind, Span),
                >(b@),
                Err(d) => Self::of_list(path@, entries_view(entries@), span) matches Err(e) && e.0
                    == d.kind && e.1 == d.span,
            },
    ;

    /// The equality test deduplication uses, as `option_eqv`.
    fn option_eq(&self, other: &Self) -> (r: bool)
        ensures
            r == Self::option_eqv(self@, other@),
    ;
}

/// The container-level bucket: every option an enumeration declaration as a
/// whole can carry. Variant names follow the recognized keys.
#[derive(Debug)]
pub enum ContainerAttr {
    /// `rename_all = "<case rule>"`.
    RenameAll(RenameRule),
    /// `repr = "<identifier>"`: the representation type.
    ReprType(Ident),
    /// `default = "<identifier>"` or `default(<identifier>)`.
    DefaultVariant(Ident),
    /// A transparency marker; never built from metadata, kept for parity
    /// with the variant bucket.
    TransparentMarker,
    /// `other ...`: opaque metadata stored as raw text for re-emission.
    OtherMetadata(String),
    /// `attr ...` or `attr_nest ...`: an arbitrary pass-through attribute
    /// stored as raw text for re-emission.
    ArbitraryAttr(String),
    /// `from = "<identifier>"`: a generated conversion source.
    FromType(Ident),
    /// `into = "<identifier>"`: a generated conversion target.
    IntoType(Ident),
    /// `try_from = "<identifier>"`: a generated fallible conversion source.
    TryFromType(Ident),
}

/// Mathematical model of a container option.
pub enum ContainerAttrV {
    RenameAll(RenameRule),
    ReprType(IdentV),
    DefaultVariant(IdentV),
    TransparentMarker,
    OtherMetadata(Seq<char>),
    ArbitraryAttr(Seq<char>),
    FromType(IdentV),
    IntoType(IdentV),
    TryFromType(IdentV),
}

impl View for ContainerAttr {
    type V = ContainerAttrV;

    open spec fn view(&self) -> ContainerAttrV {
        match self {
            ContainerAttr::RenameAll(r) => ContainerAttrV::RenameAll(*r),
            ContainerAttr::ReprType(id) => ContainerAttrV::ReprType(id@),
            ContainerAttr::DefaultVariant(id) => ContainerAttrV::DefaultVariant(id@),
            ContainerAttr::TransparentMarker => ContainerAttrV::TransparentMarker,
            ContainerAttr::OtherMetadata(s) => ContainerAttrV::OtherMetadata(s@),
            ContainerAttr::ArbitraryAttr(s) => ContainerAttrV::ArbitraryAttr(s@),
            ContainerAttr::FromType(id) => ContainerAttrV::FromType(id@),
            ContainerAttr::IntoType(id) => ContainerAttrV::IntoType(id@),
            ContainerAttr::TryFromType(id) => ContainerAttrV::TryFromType(id@),
        }
    }
}

/// The variant-level bucket: every option a single variant can carry.
#[derive(Debug)]
pub enum VariantAttr {
    /// `default = <bool>`: whether this variant is the default one.
    IsDefault(bool),
    /// `discr = "<expression>"`: a raw-text discriminant expression.
    Discriminant(String),
    /// `rename = "<case rule>"`.
    Rename(RenameRule),
    /// `other(...)`: a transparency marker.
    TransparentMarker,
    /// `other = <literal>`: opaque metadata stored as raw text.
    OtherMetadata(String),
}

/// Mathematical model of a variant option.
pub enum VariantAttrV {
    IsDefault(bool),
    Discriminant(Seq<char>),
    Rename(RenameRule),
    TransparentMarker,
    OtherMetadata(Seq<char>),
}

impl View for VariantAttr {
    type V = VariantAttrV;

    open spec fn view(&self) -> VariantAttrV {
        match self {
            VariantAttr::IsDefault(b) => VariantAttrV::IsDefault(*b),
            VariantAttr::Discriminant(s) => VariantAttrV::Discriminant(s@),
            VariantAttr::Rename(r) => VariantAttrV::Rename(*r),
            VariantAttr::TransparentMarker => VariantAttrV::TransparentMarker,
            VariantAttr::OtherMetadata(s) => VariantAttrV::OtherMetadata(s@),
        }
    }
}

/// What converting `key = literal` yields for the container bucket, key by
/// key: `default`, `repr`, `from`, `into` and `try_from` take an identifier
/// reinterpreted from a string or byte-string literal; `rename_all` takes a
/// canonical case-rule spelling; `other`, `attr` and `attr_nest` are stored
/// as raw text; every other key is unrecognized and refused at its own
/// position.
pub open spec fn cont_of_nv(path: PathV, lit: LitV) -> Result<ContainerAttrV, (DiagKind, Span)> {
    if path_is_word(path, "default"@) {
        match reinterp_ident(lit) {
            Ok(id) => Ok(ContainerAttrV::DefaultVariant(id)),
            Err(e) => Err(e),
        }
    } else if path_is_word(path, "repr"@) {
        match reinterp_ident(lit) {
            Ok(id) => Ok(ContainerAttrV::ReprType(id)),
            Err(e) => Err(e),
        }
    } else if path_is_word(path, "from"@) {
        match reinterp_ident(lit) {
            Ok(id) => Ok(ContainerAttrV::FromType(id)),
            Err(e) => Err(e),
        }
    } else if path_is_word(path, "into"@) {
        match reinterp_ident(lit) {
            Ok(id) => Ok(ContainerAttrV::IntoType(id)),
            Err(e) => Err(e),
        }
    } else if path_is_word(path, "try_from"@) {
        match reinterp_ident(lit) {
            Ok(id) => Ok(ContainerAttrV::TryFromType(id)),
            Err(e) => Err(e),
        }
    } else if path_is_word(path, "rename_all"@) {
        match lit {
            LitV::Str { text, span } => match rule_of_text(text) {
                Some(rule) => Ok(ContainerAttrV::RenameAll(rule)),
                None => Err((DiagKind::InvalidCaseRule, span)),
            },
            _ => Err((DiagKind::MalformedMetadata, lit_span(lit))),
        }
    } else if path_is_word(path, "other"@) {
        Ok(ContainerAttrV::OtherMetadata(path_text(path) + " = "@ + lit_text(lit)))
    } else if path_is_word(path, "attr"@) || path_is_word(path, "attr_nest"@) {
        Ok(ContainerAttrV::ArbitraryAttr(path_text(path) + " = "@ + lit_text(lit)))
    } else {
        Err((DiagKind::UnrecognizedOption, path.span))
    }
}

/// What converting `key(...)` yields for the container bucket: `default`
/// accepts a list wrapping a single one-word path naming a variant;
/// `other`, `attr` and `attr_nest` are stored as raw text; every other key
/// in list form is unrecognized or malformed.
pub open spec fn cont_of_list(path: PathV, entries: Seq<MetaV>, span: Span) -> Result<
    ContainerAttrV,
    (DiagKind, Span),
> {
    if path_is_word(path, "default"@) {
        if entries.len() == 1 {
            match entries[0] {
                MetaV::Path(p1) => if p1.segments.len() == 1 && is_ident_text(p1.segments[0]) {
                    Ok(
                        ContainerAttrV::DefaultVariant(
                            IdentV { name: p1.segments[0], span: p1.span },
                        ),
                    )
                } else {
                    Err((DiagKind::MalformedMetadata, span))
                },
                _ => Err((DiagKind::MalformedMetadata, span)),
            }
        } else {
            Err((DiagKind::MalformedMetadata, span))
        }
    } else if path_is_word(path, "other"@) {
        Ok(ContainerAttrV::OtherMetadata(path_text(path) + seq!['('] + list_texts(entries) + seq![')']))
    } else if path_is_word(path, "attr"@) || path_is_word(path, "attr_nest"@) {
        Ok(ContainerAttrV::ArbitraryAttr(path_text(path) + seq!['('] + list_texts(entries) + seq![')']))
    } else {
        Err((DiagKind::UnrecognizedOption, path.span))
    }
}

/// Structural equality of container options: payloads compared with the
/// positions of reinterpreted identifiers ignored.
pub open spec fn cont_eqv(a: ContainerAttrV, b: ContainerAttrV) -> bool {
    match (a, b) {
        (ContainerAttrV::RenameAll(x), ContainerAttrV::RenameAll(y)) => x == y,
        (ContainerAttrV::ReprType(x), ContainerAttrV::ReprType(y)) => x.name == y.name,
        (ContainerAttrV::DefaultVariant(x), ContainerAttrV::DefaultVariant(y)) => x.name == y.name,
        (ContainerAttrV::TransparentMarker, ContainerAttrV::TransparentMarker) => true,
        (ContainerAttrV::OtherMetadata(x), ContainerAttrV::OtherMetadata(y)) => x == y,
        (ContainerAttrV::ArbitraryAttr(x), ContainerAttrV::ArbitraryAttr(y)) => x == y,
        (ContainerAttrV::FromType(x), ContainerAttrV::FromType(y)) => x.name == y.name,
        (ContainerAttrV::IntoType(x), ContainerAttrV::IntoType(y)) => x.name == y.name,
        (ContainerAttrV::TryFromType(x), ContainerAttrV::TryFromType(y)) => x.name == y.name,
        _ => false,
    }
}

/// What converting `key = literal` yields for the variant bucket: `discr`
/// takes a string holding a raw discriminant expression, `rename` a
/// canonical case-rule spelling, `default` a boolean literal, `other` is
/// stored as raw text; every other key is unrecognized.
pub open spec fn var_of_nv(path: PathV, lit: LitV) -> Result<VariantAttrV, (DiagKind, Span)> {
    if path_is_word(path, "discr"@) {
        match lit {
            LitV::Str { text, .. } => Ok(VariantAttrV::Discriminant(text)),
            _ => Err((DiagKind::MalformedMetadata, lit_span(lit))),
        }
    } else if path_is_word(path, "rename"@) {
        match lit {
            LitV::Str { text, span } => match rule_of_text(text) {
                Some(rule) => Ok(VariantAttrV::Rename(rule)),
                None => Err((DiagKind::InvalidCaseRule, span)),
            },
            _ => Err((DiagKind::MalformedMetadata, lit_span(lit))),
        }
    } else if path_is_word(path, "default"@) {
        match lit {
            LitV::Bool { value, .. } => Ok(VariantAttrV::IsDefault(value)),
            _ => Err((DiagKind::MalformedMetadata, lit_span(lit))),
        }
    } else if path_is_word(path, "other"@) {
        Ok(VariantAttrV::OtherMetadata(path_text(path) + " = "@ + lit_text(lit)))
    } else {
        Err((DiagKind::UnrecognizedOption, path.span))
    }
}

/// What converting `key(...)` yields for the variant bucket: only
/// `other(...)` is accepted, as a transparency marker; a recognized key of
/// the wrong shape is malformed, anything else unrecognized.
pub open spec fn var_of_list(path: PathV, entries: Seq<MetaV>, span: Span) -> Result<
    VariantAttrV,
    (DiagKind, Span),
> {
    if path_is_word(path, "other"@) {
        Ok(VariantAttrV::TransparentMarker)
    } else if path_is_word(path, "discr"@) || path_is_word(path, "rename"@) || path_is_word(
        path,
        "default"@,
    ) {
        Err((DiagKind::MalformedMetadata, span))
    } else {
        Err((DiagKind::UnrecognizedOption, path.span))
    }
}

/// Structural equality of variant options.
pub open spec fn var_eqv(a: VariantAttrV, b: VariantAttrV) -> bool {
    match (a, b) {
        (VariantAttrV::IsDefault(x), VariantAttrV::IsDefault(y)) => x == y,
        (VariantAttrV::Discriminant(x), VariantAttrV::Discriminant(y)) => x == y,
        (VariantAttrV::Rename(x), VariantAttrV::Rename(y)) => x == y,
        (VariantAttrV::TransparentMarker, VariantAttrV::TransparentMarker) => true,
        (VariantAttrV::OtherMetadata(x), VariantAttrV::OtherMetadata(y)) => x == y,
        _ => false,
    }
}

/// Renders `key = literal` back to its raw text.
fn render_nv_text(path: &MetaPath, lit: &Lit) -> (s: String)
    ensures
        s@ == path_text(path@) + " = "@ + lit_text(lit@),
{
    let mut out = String::new();
    render_path(path, &mut out);
    out.append(" = ");
    render_lit(lit, &mut out);
    proof {
        assert(out@ =~= path_text(path@) + " = "@ + lit_text(lit@));
    }
    out
}

/// Renders `key(...)` back to its raw text.
fn render_list_text(path: &MetaPath, entries: &Vec<MetaEntry>) -> (s: String)
    ensures
        s@ == path_text(path@) + seq!['('] + list_texts(entries_view(entries@)) + seq![')'],
{
    let mut out = String::new();
    render_path(path, &mut out);
    crate::text::push_char(&mut out, '(');
    let ghost evs = entries_view(entries@);
    proof {
        lemma_entries_view(entries@);
    }
    let ghost base = out@;
    let n = entries.len();
    let mut i: usize = 0;
    #[verifier::loop_isolation(false)]
    while i < n
        invariant
            i <= n,
            out@ == base + list_texts(evs.subrange(0, i as int)),
        decreases n - i,
    {
        if i > 0 {
            out.append(", ");
        }
        crate::meta::render_entry_into(&entries[i], &mut out);
        proof {
            crate::meta::lemma_list_texts_step(evs, i as int);
            assert(out@ =~= base + list_texts(evs.subrange(0, i + 1)));
        }
        i = i + 1;
    }
    crate::text::push_char(&mut out, ')');
    proof {
        assert(evs.subrange(0, n as int) =~= evs);
        assert(out@ =~= path_text(path@) + seq!['('] + list_texts(evs) + seq![')']);
    }
    out
}

/// The variant keys that carry shaped payloads are pairwise distinct
/// words.
proof fn lemma_variant_keys_distinct()
    ensures
        "discr"@ != "default"@,
        "rename"@ != "default"@,
{
    reveal_strlit("discr");
    reveal_strlit("default");
    reveal_strlit("rename");
    assert("discr"@[1] == 'i');
    assert("default"@[1] == 'e');
    assert("rename"@[0] == 'r');
    assert("default"@[0] == 'd');
}

/// A diagnostic message naming the offending key.
fn keyed_msg(prefix: &str, path: &MetaPath) -> (s: String)
    ensures
        s@ == prefix@ + path_text(path@),
{
    let mut out = String::new();
    out.append(prefix);
    render_path(path, &mut out);
    proof {
        assert(out@ =~= prefix@ + path_text(path@));
    }
    out
}

/// The expected-shape message for a key that takes a string literal.
fn shape_msg(path: &MetaPath) -> (s: String)
    ensures
        s@ == "expected "@ + path_text(path@) + " = \"str literal\""@,
{
    let mut out = String::new();
    out.append("expected ");
    render_path(path, &mut out);
    out.append(" = \"str literal\"");
    proof {
        assert(out@ =~= "expected "@ + path_text(path@) + " = \"str literal\""@);
    }
    out
}

/// The expected-shape message for a key that takes a boolean literal.
fn bool_shape_msg(path: &MetaPath) -> (s: String)
    ensures
        s@ == "expected "@ + path_text(path@) + " = <bool literal>"@,
{
    let mut out = String::new();
    out.append("expected ");
    render_path(path, &mut out);
    out.append(" = <bool literal>");
    proof {
        assert(out@ =~= "expected "@ + path_text(path@) + " = <bool literal>"@);
    }
    out
}

impl AttributesBucket for ContainerAttr {
    open spec fn of_name_value(path: PathV, lit: LitV) -> Result<ContainerAttrV, (DiagKind, Span)> {
        cont_of_nv(path, lit)
    }

    open spec fn of_list(path: PathV, entries: Seq<MetaV>, span: Span) -> Result<
        ContainerAttrV,
        (DiagKind, Span),
    > {
        cont_of_list(path, entries, span)
    }

    open spec fn option_eqv(a: ContainerAttrV, b: ContainerAttrV) -> bool {
        cont_eqv(a, b)
    }

    fn from_name_value(path: &MetaPath, lit: &Lit) -> (r: Result<ContainerAttr, Diag>)
        ensures
            r matches Err(d) ==> {
                &&& (d.kind == DiagKind::UnrecognizedOption ==> d.msg@
                    == "unexpected container attribute "@ + path_text(path@))
                &&& (d.kind == DiagKind::InvalidCaseRule ==> (lit@ matches LitV::Str { text, .. }
                    && d.msg@ == invalid_rule_text(text)))
                &&& (d.kind == DiagKind::MalformedMetadata ==> d.msg@ == "expected "@ + path_text(
                    path@,
                ) + " = \"str literal\""@)
                &&& (d.kind == DiagKind::UnsupportedLiteralKind ==> d.msg@
                    == "unsupported literal type"@)
                &&& (d.kind == DiagKind::ReparseError ==> d.msg@ == "expected an identifier"@)
            },
    {
        if path_is(path, &sym_default()) {
            match token_from_lit(lit) {
                Ok(id) => Ok(ContainerAttr::DefaultVariant(id)),
                Err(d) => Err(d),
            }
        } else if path_is(path, &sym_repr()) {
            match token_from_lit(lit) {
                Ok(id) => Ok(ContainerAttr::ReprType(id)),
                Err(d) => Err(d),
            }
        } else if path_is(path, &sym_from()) {
            match token_from_lit(lit) {
                Ok(id) => Ok(ContainerAttr::FromType(id)),
                Err(d) => Err(d),
            }
        } else if path_is(path, &sym_into()) {
            match token_from_lit(lit) {
                Ok(id) => Ok(ContainerAttr::IntoType(id)),
                Err(d) => Err(d),
            }
        } else if path_is(path, &sym_try_from()) {
            match token_from_lit(lit) {
                Ok(id) => Ok(ContainerAttr::TryFromType(id)),
                Err(d) => Err(d),
            }
        } else if path_is(path, &sym_rename_all()) {
            match lit {
                Lit::Str { text, span } => match RenameRule::from_str(text.as_str()) {
                    Ok(rule) => Ok(ContainerAttr::RenameAll(rule)),
                    Err(d0) => Err(
                        Diag { kind: DiagKind::InvalidCaseRule, span: *span, msg: d0.msg },
                    ),
                },
                _ => Err(
                    Diag {
                        kind: DiagKind::MalformedMetadata,
                        span: lit.span(),
                        msg: shape_msg(path),
                    },
                ),
            }
        } else if path_is(path, &sym_other()) {
            Ok(ContainerAttr::OtherMetadata(render_nv_text(path, lit)))
        } else if path_is(path, &sym_attr()) || path_is(path, &sym_attr_nest()) {
            Ok(ContainerAttr::ArbitraryAttr(render_nv_text(path, lit)))
        } else {
            Err(
                Diag {
                    kind: DiagKind::UnrecognizedOption,
                    span: path.span,
                    msg: keyed_msg("unexpected container attribute ", path),
                },
            )
        }
    }

    fn from_list(path: &MetaPath, entries: &Vec<MetaEntry>, span: Span) -> (r: Result<
        ContainerAttr,
        Diag,
    >)
        ensures
            r matches Err(d) ==> {
                &&& (d.kind == DiagKind::UnrecognizedOption ==> d.msg@
                    == "unexpected container attribute "@ + path_text(path@))
                &&& (d.kind == DiagKind::MalformedMetadata ==> d.msg@
                    == "expected default(<variant>)"@)
            },
    {
        proof {
            lemma_entries_view(entries@);
        }
        if path_is(path, &sym_default()) {
            if entries.len() == 1 {
                match &entries[0] {
                    MetaEntry::Path(p1) => {
                        if p1.segments.len() == 1 {
                            proof {
                                assert(p1@.segments[0] == p1.segments@[0]@);
                            }
                            match token_from_str(p1.segments[0].as_str(), p1.span) {
                                Ok(id) => Ok(ContainerAttr::DefaultVariant(id)),
                                Err(_) => Err(
                                    Diag::new(
                                        DiagKind::MalformedMetadata,
                                        span,
                                        "expected default(<variant>)",
                                    ),
                                ),
                            }
                        } else {
                            Err(
                                Diag::new(
                                    DiagKind::MalformedMetadata,
                                    span,
                                    "expected default(<variant>)",
                                ),
                            )
                        }
                    },
                    _ => Err(
                        Diag::new(DiagKind::MalformedMetadata, span, "expected default(<variant>)"),
                    ),
                }
            } else {
                Err(Diag::new(DiagKind::MalformedMetadata, span, "expected default(<variant>)"))
            }
        } else if path_is(path, &sym_other()) {
            Ok(ContainerAttr::OtherMetadata(render_list_text(path, entries)))
        } else if path_is(path, &sym_attr()) || path_is(path, &sym_attr_nest()) {
            Ok(ContainerAttr::ArbitraryAttr(render_list_text(path, entries)))
        } else {
            Err(
                Diag {
                    kind: DiagKind::UnrecognizedOption,
                    span: path.span,
                    msg: keyed_msg("unexpected container attribute ", path),
                },
            )
        }
    }

    fn option_eq(&self, other: &ContainerAttr) -> (r: bool) {
        match (self, other) {
            (ContainerAttr::RenameAll(x), ContainerAttr::RenameAll(y)) => x == y,
            (ContainerAttr::ReprType(x), ContainerAttr::ReprType(y)) => crate::text::str_eq(
                x.name.as_str(),
                y.name.as_str(),
            ),
            (ContainerAttr::DefaultVariant(x), ContainerAttr::DefaultVariant(y)) => crate::text::str_eq(
                x.name.as_str(),
                y.name.as_str(),
            ),
            (ContainerAttr::TransparentMarker, ContainerAttr::TransparentMarker) => true,
            (ContainerAttr::OtherMetadata(x), ContainerAttr::OtherMetadata(y)) => crate::text::str_eq(
                x.as_str(),
                y.as_str(),
            ),
            (ContainerAttr::ArbitraryAttr(x), ContainerAttr::ArbitraryAttr(y)) => crate::text::str_eq(
                x.as_str(),
                y.as_str(),
            ),
            (ContainerAttr::FromType(x), ContainerAttr::FromType(y)) => crate::text::str_eq(
                x.name.as_str(),
                y.name.as_str(),
            ),
            (ContainerAttr::IntoType(x), ContainerAttr::IntoType(y)) => crate::text::str_eq(
                x.name.as_str(),
                y.name.as_str(),
            ),
            (ContainerAttr::TryFromType(x), ContainerAttr::TryFromType(y)) => crate::text::str_eq(
                x.name.as_str(),
                y.name.as_str(),
            ),
            _ => false,
        }
    }
}

impl AttributesBucket for VariantAttr {
    open spec fn of_name_value(path: PathV, lit: LitV) -> Result<VariantAttrV, (DiagKind, Span)> {
        var_of_nv(path, lit)
    }

    open spec fn of_list(path: PathV, entries: Seq<MetaV>, span: Span) -> Result<
        VariantAttrV,
        (DiagKind, Span),
    > {
        var_of_list(path, entries, span)
    }

    open spec fn option_eqv(a: VariantAttrV, b: VariantAttrV) -> bool {
        var_eqv(a, b)
    }

    fn from_name_value(path: &MetaPath, lit: &Lit) -> (r: Result<VariantAttr, Diag>)
        ensures
            r matches Err(d) ==> {
                &&& (d.kind == DiagKind::UnrecognizedOption ==> d.msg@ == "unexpected attribute "@
                    + path_text(path@))
                &&& (d.kind == DiagKind::InvalidCaseRule ==> (lit@ matches LitV::Str { text, .. }
                    && d.msg@ == invalid_rule_text(text)))
                &&& (d.kind == DiagKind::MalformedMetadata && path_is_word(path@, "default"@)
                    ==> d.msg@ == "expected "@ + path_text(path@) + " = <bool literal>"@)
                &&& (d.kind == DiagKind::MalformedMetadata && !path_is_word(path@, "default"@)
                    ==> d.msg@ == "expected "@ + path_text(path@) + " = \"str literal\""@)
            },
    {
        proof {
            lemma_variant_keys_distinct();
        }
        if path_is(path, &sym_discr()) {
            match lit {
                Lit::Str { text, .. } => Ok(VariantAttr::Discriminant(text.as_str().to_owned())),
                _ => Err(
                    Diag {
                        kind: DiagKind::MalformedMetadata,
                        span: lit.span(),
                        msg: shape_msg(path),
                    },
                ),
            }
        } else if path_is(path, &sym_rename()) {
            match lit {
                Lit::Str { text, span } => match RenameRule::from_str(text.as_str()) {
                    Ok(rule) => Ok(VariantAttr::Rename(rule)),
                    Err(d0) => Err(
                        Diag { kind: DiagKind::InvalidCaseRule, span: *span, msg: d0.msg },
                    ),
                },
                _ => Err(
                    Diag {
                        kind: DiagKind::MalformedMetadata,
                        span: lit.span(),
                        msg: shape_msg(path),
                    },
                ),
            }
        } else if path_is(path, &sym_default()) {
            match lit {
                Lit::Bool { value, .. } => Ok(VariantAttr::IsDefault(*value)),
                _ => Err(
                    Diag {
                        kind: DiagKind::MalformedMetadata,
                        span: lit.span(),
                        msg: bool_shape_msg(path),
                    },
                ),
            }
        } else if path_is(path, &sym_other()) {
            Ok(VariantAttr::OtherMetadata(render_nv_text(path, lit)))
        } else {
            Err(
                Diag {
                    kind: DiagKind::UnrecognizedOption,
                    span: path.span,
                    msg: keyed_msg("unexpected attribute ", path),
                },
            )
        }
    }

    fn from_list(path: &MetaPath, entries: &Vec<MetaEntry>, span: Span) -> (r: Result<
        VariantAttr,
        Diag,
    >)
        ensures
            r matches Err(d) ==> {
                &&& (d.kind == DiagKind::UnrecognizedOption ==> d.msg@ == "unexpected attribute "@
                    + path_text(path@))
                &&& (d.kind == DiagKind::MalformedMetadata ==> d.msg@
                    == "unexpected shape for attribute "@ + path_text(path@))
            },
    {
        if path_is(path, &sym_other()) {
            Ok(VariantAttr::TransparentMarker)
        } else if path_is(path, &sym_discr()) || path_is(path, &sym_rename()) || path_is(
            path,
            &sym_default(),
        ) {
            Err(
                Diag {
                    kind: DiagKind::MalformedMetadata,
                    span,
                    msg: keyed_msg("unexpected shape for attribute ", path),
                },
            )
        } else {
            Err(
                Diag {
                    kind: DiagKind::UnrecognizedOption,
                    span: path.span,
                    msg: keyed_msg("unexpected attribute ", path),
                },
            )
        }
    }

    fn option_eq(&self, other: &VariantAttr) -> (r: bool) {
        match (self, other) {
            (VariantAttr::IsDefault(x), VariantAttr::IsDefault(y)) => x == y,
            (VariantAttr::Discriminant(x), VariantAttr::Discriminant(y)) => crate::text::str_eq(
                x.as_str(),
                y.as_str(),
            ),
            (VariantAttr::Rename(x), VariantAttr::Rename(y)) => x == y,
            (VariantAttr::TransparentMarker, VariantAttr::TransparentMarker) => true,
            (VariantAttr::OtherMetadata(x), VariantAttr::OtherMetadata(y)) => crate::text::str_eq(
                x.as_str(),
                y.as_str(),
            ),
            _ => false,
        }
    }
}

/// The models of the options held in a bucket set, in order.
pub open spec fn bucket_views<A: AttributesBucket>(v: Seq<A>) -> Seq<A::V> {
    v.map_values(|a: A| a@)
}

/// Membership in a bucket set, up to structural equality of options.
pub open spec fn bucket_contains<A: AttributesBucket>(s: Seq<A::V>, b: A::V) -> bool {
    exists|i: int| 0 <= i < s.len() && A::option_eqv(s[i], b)
}

/// Adding one option with set semantics: a structurally equal option
/// already present absorbs the new one.
pub open spec fn add_option<A: AttributesBucket>(s: Seq<A::V>, b: A::V) -> Seq<A::V> {
    if bucket_contains::<A>(s, b) {
        s
    } else {
        s.push(b)
    }
}

/// What converting one normalized entry and filing it adds to the bucket:
/// the entry is dispatched on its shape, and a bare path is malformed.
pub open spec fn absorb_entry<A: AttributesBucket>(acc: Seq<A::V>, m: MetaV) -> Result<
    Seq<A::V>,
    (DiagKind, Span),
> {
    match m {
        MetaV::NameValue { path, lit } => match A::of_name_value(path, lit) {
            Ok(b) => Ok(add_option::<A>(acc, b)),
            Err(e) => Err(e),
        },
        MetaV::List { path, entries, span } => match A::of_list(path, entries, span) {
            Ok(b) => Ok(add_option::<A>(acc, b)),
            Err(e) => Err(e),
        },
        MetaV::Path(p) => Err((DiagKind::MalformedMetadata, p.span)),
    }
}

/// Filing a sequence of normalized entries, left to right, stopping at the
/// first failure.
pub open spec fn absorb_entries<A: AttributesBucket>(acc: Seq<A::V>, s: Seq<MetaV>) -> Result<
    Seq<A::V>,
    (DiagKind, Span),
>
    decreases s.len(),
{
    if s.len() == 0 {
        Ok(acc)
    } else {
        match absorb_entry::<A>(acc, s[0]) {
            Ok(a2) => absorb_entries::<A>(a2, s.subrange(1, s.len() as int)),
            Err(e) => Err(e),
        }
    }
}

/// What one whole attribute adds to the bucket: attributes outside the
/// reserved namespace add nothing; a reserved list files its nested
/// entries; a reserved name-value is converted directly; a bare reserved
/// path is malformed.
pub open spec fn absorb_meta<A: AttributesBucket>(acc: Seq<A::V>, m: MetaV) -> Result<
    Seq<A::V>,
    (DiagKind, Span),
> {
    if !is_reserved(m) {
        Ok(acc)
    } else {
        match m {
            MetaV::List { entries, .. } => absorb_entries::<A>(acc, entries),
            MetaV::NameValue { .. } => absorb_entry::<A>(acc, m),
            MetaV::Path(p) => Err((DiagKind::MalformedMetadata, p.span)),
        }
    }
}

/// Filing a whole attribute list into the bucket, left to right.
pub open spec fn absorb_all<A: AttributesBucket>(acc: Seq<A::V>, ms: Seq<MetaV>) -> Result<
    Seq<A::V>,
    (DiagKind, Span),
>
    decreases ms.len(),
{
    if ms.len() == 0 {
        Ok(acc)
    } else {
        match absorb_meta::<A>(acc, ms[0]) {
            Ok(a2) => absorb_all::<A>(a2, ms.subrange(1, ms.len() as int)),
            Err(e) => Err(e),
        }
    }
}

/// Whether the bucket set already holds a structurally equal option.
fn bucket_has<A: AttributesBucket>(set: &Vec<A>, b: &A) -> (r: bool)
    ensures
        r == bucket_contains::<A>(bucket_views(set@), b@),
{
    let ghost sv = bucket_views(set@);
    let mut i: usize = 0;
    #[verifier::loop_isolation(false)]
    while i < set.len()
        invariant
            i <= set.len(),
            forall|j: int| 0 <= j < i ==> !A::option_eqv(sv[j], b@),
        decreases set.len() - i,
    {
        proof {
            assert(sv[i as int] == set@[i as int]@);
        }
        if set[i].option_eq(b) {
            return true;
        }
        i = i + 1;
    }
    false
}

/// Inserts an option with set semantics: the deduplication of the bucket.
fn insert_option<A: AttributesBucket>(set: &mut Vec<A>, b: A)
    ensures
        bucket_views(final(set)@) == add_option::<A>(bucket_views(old(set)@), b@),
{
    if !bucket_has(set, &b) {
        let ghost before = set@;
        set.push(b);
        proof {
            assert(bucket_views(set@) =~= bucket_views(before).push(set@.last()@));
        }
    }
}

/// Converts one attribute's worth of metadata and files the recognized
/// options into the bucket set, exactly as `absorb_meta` says; the first
/// unrecognized or malformed fragment aborts with its diagnostic.
pub fn get_attr<A: AttributesBucket>(meta: MetaEntry, set: &mut Vec<A>) -> (r: Result<(), Diag>)
    ensures
        match r {
            Ok(_) => absorb_meta::<A>(bucket_views(old(set)@), meta@) == Ok::<
                Seq<A::V>,
                (DiagKind, Span),
            >(bucket_views(final(set)@)),
            Err(d) => absorb_meta::<A>(bucket_views(old(set)@), meta@) matches Err(e) && e.0
                == d.kind && e.1 == d.span,
        },
{
    let id = sym_id();
    let reserved = match &meta {
        MetaEntry::Path(p) => path_is(p, &id),
        MetaEntry::NameValue { path, .. } => path_is(path, &id),
        MetaEntry::List { path, .. } => path_is(path, &id),
    };
    if !reserved {
        return Ok(());
    }
    match meta {
        MetaEntry::List { path: _, entries, span: _ } => {
            let ghost acc0 = bucket_views(set@);
            let ghost all = entries_view(entries@);
            proof {
                lemma_entries_view(entries@);
            }
            let mut rest = entries;
            #[verifier::loop_isolation(false)]
            while rest.len() > 0
                invariant
                    absorb_entries::<A>(acc0, all) == absorb_entries::<A>(
                        bucket_views(set@),
                        entries_view(rest@),
                    ),
                decreases rest.len(),
            {
                let ghost rest0 = rest@;
                let ghost racc = bucket_views(set@);
                let ghost rv = entries_view(rest@);
                proof {
                    lemma_entries_view(rest0);
                }
                let e = rest.remove(0);
                proof {
                    lemma_entries_view(rest@);
                    assert(rest@ =~= rest0.subrange(1, rest0.len() as int));
                    assert(entries_view(rest@) =~= rv.subrange(1, rv.len() as int));
                    assert(rv[0] == e@);
                }
                match e {
                    MetaEntry::NameValue { path, lit } => {
                        match A::from_name_value(&path, &lit) {
                            Ok(b) => {
                                insert_option(set, b);
                            },
                            Err(d) => {
                                proof {
                                    assert(absorb_entry::<A>(racc, rv[0]) matches Err(er) && er.0
                                        == d.kind && er.1 == d.span);
                                }
                                return Err(d);
                            },
                        }
                    },
                    MetaEntry::List { path, entries: inner, span } => {
                        match A::from_list(&path, &inner, span) {
                            Ok(b) => {
                                insert_option(set, b);
                            },
                            Err(d) => {
                                proof {
                                    assert(absorb_entry::<A>(racc, rv[0]) matches Err(er) && er.0
                                        == d.kind && er.1 == d.span);
                                }
                                return Err(d);
                            },
                        }
                    },
                    MetaEntry::Path(p) => {
                        return Err(
                            Diag::new(DiagKind::MalformedMetadata, p.span, "unexpected attribute"),
                        );
                    },
                }
            }
            proof {
                assert(entries_view(rest@) =~= Seq::<MetaV>::empty());
            }
            Ok(())
        },
        MetaEntry::NameValue { path, lit } => {
            match A::from_name_value(&path, &lit) {
                Ok(b) => {
                    insert_option(set, b);
                    Ok(())
                },
                Err(d) => Err(d),
            }
        },
        MetaEntry::Path(p) => Err(
            Diag::new(DiagKind::MalformedMetadata, p.span, "unexpected attribute"),
        ),
    }
}

/// Builds a bucket set from a declaration's whole attribute list, exactly
/// as `absorb_all` says: recognized options deduplicated in order of first
/// appearance, the first failure aborting with its diagnostic.
pub fn get_container_attrs<A: AttributesBucket>(attrs: Vec<MetaEntry>) -> (r: Result<Vec<A>, Diag>)
    ensures
        match r {
            Ok(v) => absorb_all::<A>(Seq::empty(), entries_view(attrs@)) == Ok::<
                Seq<A::V>,
                (DiagKind, Span),
            >(bucket_views(v@)),
            Err(d) => absorb_all::<A>(Seq::empty(), entries_view(attrs@)) matches Err(e) && e.0
                == d.kind && e.1 == d.span,
        },
{
    let ghost allms = entries_view(attrs@);
    let mut set: Vec<A> = Vec::new();
    let mut rest = attrs;
    proof {
        assert(bucket_views(set@) =~= Seq::<A::V>::empty());
    }
    #[verifier::loop_isolation(false)]
    while rest.len() > 0
        invariant
            absorb_all::<A>(Seq::empty(), allms) == absorb_all::<A>(
                bucket_views(set@),
                entries_view(rest@),
            ),
        decreases rest.len(),
    {
        let ghost rest0 = rest@;
        let ghost racc = bucket_views(set@);
        let ghost rv = entries_view(rest@);
        proof {
            lemma_entries_view(rest0);
        }
        let attr = rest.remove(0);
        proof {
            lemma_entries_view(rest@);
            assert(rest@ =~= rest0.subrange(1, rest0.len() as int));
            assert(entries_view(rest@) =~= rv.subrange(1, rv.len() as int));
            assert(rv[0] == attr@);
        }
        match get_attr(attr, &mut set) {
            Ok(_) => {},
            Err(d) => {
                proof {
                    assert(absorb_meta::<A>(racc, rv[0]) matches Err(er) && er.0 == d.kind && er.1
                        == d.span);
                }
                return Err(d);
            },
        }
    }
    proof {
        assert(entries_view(rest@) =~= Seq::<MetaV>::empty());
    }
    Ok(set)
}

/// Builds a variant's bucket set from its attribute list; the grammar is
/// the same walk as for the container, dispatched on the variant bucket.
pub fn get_variant_attrs<A: AttributesBucket>(attrs: Vec<MetaEntry>) -> (r: Result<Vec<A>, Diag>)
    ensures
        match r {
            Ok(v) => absorb_all::<A>(Seq::empty(), entries_view(attrs@)) == Ok::<
                Seq<A::V>,
                (DiagKind, Span),
            >(bucket_views(v@)),
            Err(d) => absorb_all::<A>(Seq::empty(), entries_view(attrs@)) matches Err(e) && e.0
                == d.kind && e.1 == d.span,
        },
{
    get_container_attrs::<A>(attrs)
}

/// Every key outside the recognized container set is refused with
/// `UnrecognizedOption` anchored at the key's own position, whatever the
/// payload.
pub proof fn lemma_unrecognized_container_key(path: PathV, lit: LitV)
    requires
        !path_is_word(path, "default"@),
        !path_is_word(path, "repr"@),
        !path_is_word(path, "from"@),
        !path_is_word(path, "into"@),
        !path_is_word(path, "try_from"@),
        !path_is_word(path, "rename_all"@),
        !path_is_word(path, "other"@),
        !path_is_word(path, "attr"@),
        !path_is_word(path, "attr_nest"@),
    ensures
        cont_of_nv(path, lit) == Err::<ContainerAttrV, (DiagKind, Span)>(
            (DiagKind::UnrecognizedOption, path.span),
        ),
{
}

/// Every key outside the recognized variant set is refused with
/// `UnrecognizedOption` anchored at the key's own position.
pub proof fn lemma_unrecognized_variant_key(path: PathV, lit: LitV)
    requires
        !path_is_word(path, "discr"@),
        !path_is_word(path, "rename"@),
        !path_is_word(path, "default"@),
        !path_is_word(path, "other"@),
    ensures
        var_of_nv(path, lit) == Err::<VariantAttrV, (DiagKind, Span)>(
            (DiagKind::UnrecognizedOption, path.span),
        ),
{
}

} // verus!
