use vstd::prelude::*;
use crate::bucket::{
    absorb_all, bucket_views, get_container_attrs, get_variant_attrs, ContainerAttr,
    ContainerAttrV, VariantAttr, VariantAttrV,
};
use crate::meta::{entries_view, Ident, IdentV, MetaEntry, MetaV};
use crate::span::{Diag, DiagKind, Span};
use crate::token::{toks_view, Tok, TokV};

verus! {

broadcast use vstd::seq::group_seq_axioms, vstd::std_specs::vec::group_vec_axioms;

/// The shape of a variant's fields: none, named, or positional.
#[derive(Clone, Copy, Debug, PartialEq, Eq, Structural)]
pub enum FieldsShape {
    Unit,
    Named { count: usize },
    Unnamed { count: usize },
}

/// An explicit discriminant: a numeric value, or the raw tokens of an
/// arbitrary expression carried through untouched for re-emission.
#[derive(Debug)]
pub enum DiscrValue {
    Value(u64),
    Raw(Vec<Tok>),
}

/// Mathematical model of an explicit discriminant.
pub enum DiscrValueV {
    Value(u64),
    Raw(Seq<TokV>),
}

impl View for DiscrValue {
    type V = DiscrValueV;

    open spec fn view(&self) -> DiscrValueV {
        match self {
            DiscrValue::Value(x) => DiscrValueV::Value(*x),
            DiscrValue::Raw(ts) => DiscrValueV::Raw(toks_view(ts@)),
        }
    }
}

/// One declared variant as handed to assembly: its raw attribute list, its
/// name, the shape of its fields, and its explicit discriminant if it
/// declares one.
#[derive(Debug)]
pub struct RawVariant {
    pub attrs: Vec<MetaEntry>,
    pub ident: Ident,
    pub fields: FieldsShape,
    pub discr: Option<DiscrValue>,
}

/// Mathematical model of a declared variant.
pub struct RawVariantV {
    pub attrs: Seq<MetaV>,
    pub ident: IdentV,
    pub fields: FieldsShape,
    pub discr: Option<DiscrValueV>,
}

impl View for RawVariant {
    type V = RawVariantV;

    open spec fn view(&self) -> RawVariantV {
        RawVariantV {
            attrs: entries_view(self.attrs@),
            ident: self.ident@,
            fields: self.fields,
            discr: match self.discr {
                Some(d) => Some(d@),
                None => None,
            },
        }
    }
}

/// The models of a sequence of declared variants.
pub open spec fn raw_variants_view(s: Seq<RawVariant>) -> Seq<RawVariantV> {
    s.map_values(|v: RawVariant| v@)
}

/// The body of a declaration: only an enumeration can be assembled.
#[derive(Debug)]
pub enum RawData {
    EnumData { variants: Vec<RawVariant> },
    StructData,
    UnionData,
}

/// Mathematical model of a declaration body.
pub enum RawDataV {
    EnumData { variants: Seq<RawVariantV> },
    StructData,
    UnionData,
}

impl View for RawData {
    type V = RawDataV;

    open spec fn view(&self) -> RawDataV {
        match self {
            RawData::EnumData { variants } => RawDataV::EnumData {
                variants: raw_variants_view(variants@),
            },
            RawData::StructData => RawDataV::StructData,
            RawData::UnionData => RawDataV::UnionData,
        }
    }
}

/// A whole declaration as handed to assembly: attribute list, identity,
/// generic-parameter names, and body.
#[derive(Debug)]
pub struct RawInput {
    pub attrs: Vec<MetaEntry>,
    pub ident: Ident,
    pub generics: Vec<String>,
    pub data: RawData,
}

/// Mathematical model of a declaration.
pub struct RawInputV {
    pub attrs: Seq<MetaV>,
    pub ident: IdentV,
    pub generics: Seq<Seq<char>>,
    pub data: RawDataV,
}

impl View for RawInput {
    type V = RawInputV;

    open spec fn view(&self) -> RawInputV {
        RawInputV {
            attrs: entries_view(self.attrs@),
            ident: self.ident@,
            generics: self.generics@.map_values(|s: String| s@),
            data: self.data@,
        }
    }
}

/// A validated variant: its bucket of recognized options, its name, shape,
/// and explicit discriminant. Owned by its enumeration; frozen after
/// assembly.
#[derive(Debug)]
pub struct Variant {
    pub attrs: Vec<VariantAttr>,
    pub ident: Ident,
    pub fields: FieldsShape,
    pub discr: Option<DiscrValue>,
}

/// Mathematical model of a validated variant.
pub struct VariantV {
    pub attrs: Seq<VariantAttrV>,
    pub ident: IdentV,
    pub fields: FieldsShape,
    pub discr: Option<DiscrValueV>,
}

impl View for Variant {
    type V = VariantV;

    open spec fn view(&self) -> VariantV {
        VariantV {
            attrs: bucket_views(self.attrs@),
            ident: self.ident@,
            fields: self.fields,
            discr: match self.discr {
                Some(d) => Some(d@),
                None => None,
            },
        }
    }
}

/// The models of a sequence of validated variants.
pub open spec fn variant_views(s: Seq<Variant>) -> Seq<VariantV> {
    s.map_values(|v: Variant| v@)
}

/// The frozen intermediate representation of an annotated enumeration:
/// container options, identity, generic-parameter names, and the validated
/// variants in declaration order. Built once per declaration, then only
/// consumed.
#[derive(Debug)]
pub struct Enum {
    pub attrs: Vec<ContainerAttr>,
    pub ident: Ident,
    pub generics: Vec<String>,
    pub variants: Vec<Variant>,
}

/// Mathematical model of the frozen representation.
pub struct EnumV {
    pub attrs: Seq<ContainerAttrV>,
    pub ident: IdentV,
    pub generics: Seq<Seq<char>>,
    pub variants: Seq<VariantV>,
}

impl View for Enum {
    type V = EnumV;

    open spec fn view(&self) -> EnumV {
        EnumV {
            attrs: bucket_views(self.attrs@),
            ident: self.ident@,
            generics: self.generics@.map_values(|s: String| s@),
            variants: variant_views(self.variants@),
        }
    }
}

/// What validating one declared variant yields: its attribute bucket, with
/// name, shape and discriminant carried over.
pub open spec fn variant_of_raw(v: RawVariantV) -> Result<VariantV, (DiagKind, Span)> {
    match absorb_all::<VariantAttr>(Seq::empty(), v.attrs) {
        Ok(b) => Ok(VariantV { attrs: b, ident: v.ident, fields: v.fields, discr: v.discr }),
        Err(e) => Err(e),
    }
}

/// Validating the declared variants in order, failing fast: a failure on
/// one variant aborts the whole assembly, and no partial list exists.
pub open spec fn variants_of_raw(s: Seq<RawVariantV>) -> Result<Seq<VariantV>, (DiagKind, Span)>
    decreases s.len(),
{
    if s.len() == 0 {
        Ok(Seq::empty())
    } else {
        match variant_of_raw(s[0]) {
            Ok(v) => match variants_of_raw(s.subrange(1, s.len() as int)) {
                Ok(vs) => Ok(seq![v] + vs),
                Err(e) => Err(e),
            },
            Err(e) => Err(e),
        }
    }
}

/// What assembling a raw declaration yields: anything but an enumeration is
/// refused; then the container bucket is built, then every variant's bucket
/// in declaration order; the first failure wins and no partial
/// representation is ever produced.
pub open spec fn assemble(input: RawInputV) -> Result<EnumV, (DiagKind, Span)> {
    match input.data {
        RawDataV::EnumData { variants } => match absorb_all::<ContainerAttr>(
            Seq::empty(),
            input.attrs,
        ) {
            Ok(cb) => match variants_of_raw(variants) {
                Ok(vs) => Ok(
                    EnumV {
                        attrs: cb,
                        ident: input.ident,
                        generics: input.generics,
                        variants: vs,
                    },
                ),
                Err(e) => Err(e),
            },
            Err(e) => Err(e),
        },
        _ => Err((DiagKind::NotAnEnum, input.ident.span)),
    }
}

/// Assembly keeps the declared variant order: on success there is exactly
/// one validated variant per declared variant, in the same order, with the
/// same name, shape and explicit discriminant.
pub proof fn lemma_variant_order(s: Seq<RawVariantV>)
    ensures
        variants_of_raw(s) matches Ok(vs) ==> vs.len() == s.len() && forall|i: int|
            0 <= i < s.len() ==> (#[trigger] vs[i]).ident == s[i].ident && vs[i].fields
                == s[i].fields && vs[i].discr == s[i].discr,
    decreases s.len(),
{
    if s.len() > 0 {
        lemma_variant_order(s.subrange(1, s.len() as int));
    }
}

impl Variant {
    /// Validates one declared variant by building its attribute bucket.
    pub fn from_raw(v: RawVariant) -> (r: Result<Variant, Diag>)
        ensures
            match r {
                Ok(out) => variant_of_raw(v@) == Ok::<VariantV, (DiagKind, Span)>(out@),
                Err(d) => variant_of_raw(v@) matches Err(e) && e.0 == d.kind && e.1 == d.span,
            },
    {
        let RawVariant { attrs, ident, fields, discr } = v;
        match get_variant_attrs::<VariantAttr>(attrs) {
            Ok(bucket) => Ok(Variant { attrs: bucket, ident, fields, discr }),
            Err(d) => Err(d),
        }
    }
}

impl Enum {
    /// Assembles the frozen representation from a raw declaration, exactly
    /// as `assemble` says: not-an-enumeration is refused first, then the
    /// container bucket is built, then each variant in declaration order,
    /// and the first diagnostic aborts the whole assembly.
    pub fn from_input(input: RawInput) -> (r: Result<Enum, Diag>)
        ensures
            match r {
                Ok(en) => assemble(input@) == Ok::<EnumV, (DiagKind, Span)>(en@),
                Err(d) => assemble(input@) matches Err(e) && e.0 == d.kind && e.1 == d.span && (
                !(input@.data is EnumData) ==> d.msg@ == "only works for an enum"@),
            },
    {
        let RawInput { attrs, ident, generics, data } = input;
        let raw_variants = match data {
            RawData::EnumData { variants } => variants,
            _ => {
                return Err(Diag::new(DiagKind::NotAnEnum, ident.span, "only works for an enum"));
            },
        };
        let ghost all = raw_variants_view(raw_variants@);
        let container = match get_container_attrs::<ContainerAttr>(attrs) {
            Ok(c) => c,
            Err(d) => {
                return Err(d);
            },
        };
        let mut out: Vec<Variant> = Vec::new();
        let mut rest = raw_variants;
        #[verifier::loop_isolation(false)]
        while rest.len() > 0
            invariant
                variants_of_raw(all) == (match variants_of_raw(raw_variants_view(rest@)) {
                    Ok(t) => Ok::<Seq<VariantV>, (DiagKind, Span)>(variant_views(out@) + t),
                    Err(e) => Err(e),
                }),
            decreases rest.len(),
        {
            let ghost rest0 = rest@;
            let ghost rv = raw_variants_view(rest@);
            let ghost outv = variant_views(out@);
            let v = rest.remove(0);
            proof {
                assert(rest@ =~= rest0.subrange(1, rest0.len() as int));
                assert(raw_variants_view(rest@) =~= rv.subrange(1, rv.len() as int));
                assert(rv[0] == v@);
            }
            match Variant::from_raw(v) {
                Ok(done) => {
                    let ghost before = out@;
                    out.push(done);
                    proof {
                        assert(variant_views(out@) =~= variant_views(before).push(out@.last()@));
                        assert forall|t: Seq<VariantV>|
                            outv + (seq![out@.last()@] + t) =~= variant_views(out@) + t by {}
                    }
                },
                Err(d) => {
                    proof {
                        assert(variant_of_raw(rv[0]) matches Err(e) && e.0 == d.kind && e.1
                            == d.span);
                    }
                    return Err(d);
                },
            }
        }
        proof {
            assert(raw_variants_view(rest@) =~= Seq::<RawVariantV>::empty());
            assert(variant_views(out@) + Seq::<VariantV>::empty() =~= variant_views(out@));
        }
        let en = Enum { attrs: container, ident, generics, variants: out };
        proof {
            assert(en@.generics =~= input@.generics);
        }
        Ok(en)
    }
}

/// The effective discriminants of the variants from `next` on: an explicit
/// numeric value where declared, else the running value, which then
/// increments. `None` when an increment passes the carrier's maximum, or
/// when a variant carries a raw discriminant expression whose value is not
/// statically known.
pub open spec fn discrs_from(vs: Seq<VariantV>, next: int) -> Option<Seq<u64>>
    decreases vs.len(),
{
    if vs.len() == 0 {
        Some(Seq::empty())
    } else if vs[0].discr matches Some(DiscrValueV::Raw(_)) {
        None
    } else {
        let d = match vs[0].discr {
            Some(DiscrValueV::Value(x)) => x as int,
            _ => next,
        };
        if d > u64::MAX {
            None
        } else {
            match discrs_from(vs.subrange(1, vs.len() as int), d + 1) {
                Some(r) => Some(seq![d as u64] + r),
                None => None,
            }
        }
    }
}

/// The effective discriminant of every variant, in declaration order:
/// explicit values are taken as declared, unspecified ones are derived
/// positionally as one more than the previous variant's value, starting at
/// zero.
pub open spec fn effective_discrs(vs: Seq<VariantV>) -> Option<Seq<u64>> {
    discrs_from(vs, 0)
}

impl Enum {
    /// Computes each variant's effective discriminant in declaration order;
    /// `None` exactly when a positional increment would not fit the
    /// carrier.
    pub fn effective_discriminants(&self) -> (r: Option<Vec<u64>>)
        ensures
            match r {
                Some(v) => effective_discrs(variant_views(self.variants@)) == Some(v@),
                None => effective_discrs(variant_views(self.variants@)) is None,
            },
    {
        let ghost vv = variant_views(self.variants@);
        let n = self.variants.len();
        let mut out: Vec<u64> = Vec::new();
        let mut next: u64 = 0;
        let mut next_ok: bool = true;
        let mut i: usize = 0;
        proof {
            assert(vv.subrange(0, n as int) =~= vv);
            assert forall|t: Seq<u64>| #[trigger] (Seq::<u64>::empty() + t) == t by {
                assert(Seq::<u64>::empty() + t =~= t);
            }
        }
        #[verifier::loop_isolation(false)]
        while i < n
            invariant
                i <= n,
                vv.len() == n,
                out@.len() == i,
                effective_discrs(vv) == (match discrs_from(
                    vv.subrange(i as int, n as int),
                    if next_ok {
                        next as int
                    } else {
                        u64::MAX as int + 1
                    },
                ) {
                    Some(t) => Some(out@ + t),
                    None => None::<Seq<u64>>,
                }),
            decreases n - i,
        {
            proof {
                assert(vv[i as int] == self.variants@[i as int]@);
            }
            let ghost tail0 = vv.subrange(i as int, n as int);
            let ghost cur: int = if next_ok {
                next as int
            } else {
                u64::MAX as int + 1
            };
            proof {
                assert(tail0[0] == vv[i as int]);
            }
            let d: u64 = match &self.variants[i].discr {
                Some(DiscrValue::Value(x)) => *x,
                Some(DiscrValue::Raw(_)) => {
                    proof {
                        assert(tail0[0].discr matches Some(DiscrValueV::Raw(_)));
                        assert(discrs_from(tail0, cur) is None);
                    }
                    return None;
                },
                None => {
                    if !next_ok {
                        proof {
                            assert(discrs_from(tail0, u64::MAX as int + 1) is None);
                        }
                        return None;
                    }
                    next
                },
            };
            let ghost before = out@;
            out.push(d);
            if d == u64::MAX {
                next_ok = false;
            } else {
                next = d + 1;
                next_ok = true;
            }
            proof {
                assert(vv.subrange(i + 1, n as int) =~= tail0.subrange(1, tail0.len() as int));
                assert(out@ =~= before.push(d));
                assert(d as int <= u64::MAX);
                assert(discrs_from(tail0, cur) == (match discrs_from(
                    tail0.subrange(1, tail0.len() as int),
                    d as int + 1,
                ) {
                    Some(r) => Some(seq![d] + r),
                    None => None::<Seq<u64>>,
                }));
                assert forall|t: Seq<u64>| #[trigger] (before + (seq![d] + t)) == out@ + t by {
                    assert(before + (seq![d] + t) =~= out@ + t);
                }
            }
            i = i + 1;
        }
        proof {
            assert(vv.subrange(n as int, n as int) =~= Seq::<VariantV>::empty());
            assert(out@ + Seq::<u64>::empty() =~= out@);
        }
        Some(out)
    }
}

} // verus!
