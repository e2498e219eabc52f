use vstd::prelude::*;
use crate::meta::{
    entries_view, entry_eq, entry_eqv, entry_view, lemma_entries_eqv_pointwise,
    lemma_entries_view, MetaEntry, MetaV, PathV,
};
use crate::span::{Diag, DiagKind, Span};
use crate::symbol::{path_is, path_is_word, sym_id};

verus! {

broadcast use vstd::seq::group_seq_axioms, vstd::std_specs::vec::group_vec_axioms;

/// Membership in a collection of entries, up to structural equality.
pub open spec fn contains_eqv(s: Seq<MetaV>, m: MetaV) -> bool {
    exists|i: int| 0 <= i < s.len() && entry_eqv(s[i], m)
}

/// No two entries of the collection are structurally equal.
pub open spec fn no_dup_entries(s: Seq<MetaV>) -> bool {
    forall|i: int, j: int| 0 <= i < j < s.len() ==> !entry_eqv(s[i], s[j])
}

/// Adding one entry with set semantics: an entry structurally equal to one
/// already present changes nothing.
pub open spec fn add_entry(acc: Seq<MetaV>, m: MetaV) -> Seq<MetaV> {
    if contains_eqv(acc, m) {
        acc
    } else {
        acc.push(m)
    }
}

/// Adding a sequence of entries in order, each with set semantics.
pub open spec fn add_entries(acc: Seq<MetaV>, s: Seq<MetaV>) -> Seq<MetaV>
    decreases s.len(),
{
    if s.len() == 0 {
        acc
    } else {
        add_entries(add_entry(acc, s[0]), s.subrange(1, s.len() as int))
    }
}

/// The key path of an attribute, whatever its shape.
pub open spec fn meta_path_of(m: MetaV) -> PathV {
    match m {
        MetaV::Path(p) => p,
        MetaV::NameValue { path, .. } => path,
        MetaV::List { path, .. } => path,
    }
}

/// Whether an attribute belongs to the tool's reserved namespace. All other
/// attributes belong to other tooling and pass through untouched.
pub open spec fn is_reserved(m: MetaV) -> bool {
    path_is_word(meta_path_of(m), "enum_repr"@)
}

/// What extracting one attribute adds to the accumulated set: an attribute
/// outside the reserved namespace adds nothing; a reserved list adds its
/// nested entries in order; a reserved attribute of any other shape is
/// malformed.
pub open spec fn extract_one(acc: Seq<MetaV>, m: MetaV) -> Result<Seq<MetaV>, (DiagKind, Span)> {
    if !is_reserved(m) {
        Ok(acc)
    } else {
        match m {
            MetaV::List { entries, .. } => Ok(add_entries(acc, entries)),
            _ => Err((DiagKind::MalformedMetadata, meta_path_of(m).span)),
        }
    }
}

/// Extracting a whole attribute list, left to right, stopping at the first
/// malformed reserved attribute.
pub open spec fn extract_all(acc: Seq<MetaV>, ms: Seq<MetaV>) -> Result<
    Seq<MetaV>,
    (DiagKind, Span),
>
    decreases ms.len(),
{
    if ms.len() == 0 {
        Ok(acc)
    } else {
        match extract_one(acc, ms[0]) {
            Ok(a2) => extract_all(a2, ms.subrange(1, ms.len() as int)),
            Err(e) => Err(e),
        }
    }
}

/// Structural equality is reflexive.
pub proof fn lemma_entry_eqv_refl(m: MetaV)
    ensures
        entry_eqv(m, m),
    decreases m,
{
    match m {
        MetaV::List { entries, .. } => {
            assert forall|i: int| 0 <= i < entries.len() implies entry_eqv(
                entries[i],
                entries[i],
            ) by {
                lemma_entry_eqv_refl(entries[i]);
            }
            lemma_entries_eqv_pointwise(entries, entries);
        },
        _ => {},
    }
}

/// Set semantics deduplicate: adding the same entry twice, or one
/// structurally equal to it, leaves a single copy.
pub proof fn lemma_dedup_idempotent(acc: Seq<MetaV>, m: MetaV)
    ensures
        add_entry(add_entry(acc, m), m) == add_entry(acc, m),
{
    lemma_entry_eqv_refl(m);
    if !contains_eqv(acc, m) {
        assert(entry_eqv(acc.push(m)[acc.len() as int], m));
    }
}

/// Adding with set semantics keeps the collection free of duplicates.
pub proof fn lemma_add_entry_no_dup(acc: Seq<MetaV>, m: MetaV)
    requires
        no_dup_entries(acc),
    ensures
        no_dup_entries(add_entry(acc, m)),
{
    if !contains_eqv(acc, m) {
        let r = acc.push(m);
        assert forall|i: int, j: int| 0 <= i < j < r.len() implies !entry_eqv(r[i], r[j]) by {
            if j < acc.len() {
            } else {
                assert(r[j] == m);
                assert(r[i] == acc[i]);
                assert(!entry_eqv(acc[i], m));
            }
        }
    }
}

/// Folding entries in keeps the collection free of duplicates.
pub proof fn lemma_add_entries_no_dup(acc: Seq<MetaV>, s: Seq<MetaV>)
    requires
        no_dup_entries(acc),
    ensures
        no_dup_entries(add_entries(acc, s)),
    decreases s.len(),
{
    if s.len() > 0 {
        lemma_add_entry_no_dup(acc, s[0]);
        lemma_add_entries_no_dup(add_entry(acc, s[0]), s.subrange(1, s.len() as int));
    }
}

/// Whether the collected set already holds a structurally equal entry.
pub fn contains_entry(set: &Vec<MetaEntry>, e: &MetaEntry) -> (r: bool)
    ensures
        r == contains_eqv(entries_view(set@), e@),
{
    let ghost sv = entries_view(set@);
    proof {
        lemma_entries_view(set@);
    }
    let mut i: usize = 0;
    while i < set.len()
        invariant
            i <= set.len(),
            sv == entries_view(set@),
            sv.len() == set.len(),
            forall|j: int| 0 <= j < set@.len() ==> sv[j] == entry_view(set@[j]),
            forall|j: int| 0 <= j < i ==> !entry_eqv(sv[j], e@),
        decreases set.len() - i,
    {
        if entry_eq(&set[i], e) {
            assert(entry_eqv(sv[i as int], e@));
            return true;
        }
        i = i + 1;
    }
    false
}

/// Inserts an entry with set semantics: this is the deduplication of the
/// extraction step, collapsing structurally identical entries to one.
pub fn insert_unique(set: &mut Vec<MetaEntry>, e: MetaEntry)
    ensures
        entries_view(final(set)@) == add_entry(entries_view(old(set)@), e@),
{
    if !contains_entry(set, &e) {
        let ghost before = set@;
        set.push(e);
        proof {
            assert(set@.subrange(0, set@.len() - 1) =~= before);
            assert(set@.last() == e);
        }
    }
}

/// Walks one attribute and collects its normalized entries into `set`,
/// deduplicating by structural equality; exactly as `extract_one` says.
pub fn get_meta_items(attr: MetaEntry, set: &mut Vec<MetaEntry>) -> (r: Result<(), Diag>)
    ensures
        match r {
            Ok(_) => extract_one(entries_view(old(set)@), attr@) == Ok::<Seq<MetaV>, (DiagKind, Span)>(
                entries_view(final(set)@),
            ),
            Err(d) => extract_one(entries_view(old(set)@), attr@) matches Err(e) && e.0 == d.kind
                && e.1 == d.span && d.msg@ == "expected #[enum_repr(...)]"@ && final(set)@
                == old(set)@,
        },
{
    let id = sym_id();
    let reserved = match &attr {
        MetaEntry::Path(p) => path_is(p, &id),
        MetaEntry::NameValue { path, .. } => path_is(path, &id),
        MetaEntry::List { path, .. } => path_is(path, &id),
    };
    if !reserved {
        return Ok(());
    }
    match attr {
        MetaEntry::List { path: _, entries, span: _ } => {
            let ghost acc0 = entries_view(set@);
            let ghost all = entries_view(entries@);
            proof {
                lemma_entries_view(entries@);
            }
            let mut rest = entries;
            while rest.len() > 0
                invariant
                    add_entries(acc0, all) == add_entries(
                        entries_view(set@),
                        entries_view(rest@),
                    ),
                decreases rest.len(),
            {
                let ghost rest0 = rest@;
                let ghost rv = entries_view(rest@);
                proof {
                    lemma_entries_view(rest0);
                }
                let e = rest.remove(0);
                proof {
                    lemma_entries_view(rest@);
                    assert(rest@ =~= rest0.subrange(1, rest0.len() as int));
                    assert(entries_view(rest@) =~= rv.subrange(1, rv.len() as int));
                    assert(rv[0] == e@);
                }
                insert_unique(set, e);
            }
            proof {
                assert(entries_view(rest@) =~= Seq::<MetaV>::empty());
            }
            Ok(())
        },
        MetaEntry::NameValue { path, .. } => Err(
            Diag::new(DiagKind::MalformedMetadata, path.span, "expected #[enum_repr(...)]"),
        ),
        MetaEntry::Path(p) => Err(
            Diag::new(DiagKind::MalformedMetadata, p.span, "expected #[enum_repr(...)]"),
        ),
    }
}

/// Walks a whole attribute list and collects the normalized, deduplicated
/// set of entries in the reserved namespace; the result holds no two
/// structurally equal entries.
pub fn get_all_attrs(attrs: Vec<MetaEntry>) -> (r: Result<Vec<MetaEntry>, Diag>)
    ensures
        match r {
            Ok(v) => extract_all(Seq::empty(), entries_view(attrs@)) == Ok::<
                Seq<MetaV>,
                (DiagKind, Span),
            >(entries_view(v@)) && no_dup_entries(entries_view(v@)),
            Err(d) => extract_all(Seq::empty(), entries_view(attrs@)) matches Err(e) && e.0
                == d.kind && e.1 == d.span,
        },
{
    let ghost allms = entries_view(attrs@);
    let mut set: Vec<MetaEntry> = Vec::new();
    let mut rest = attrs;
    proof {
        assert(entries_view(set@) =~= Seq::<MetaV>::empty());
    }
    #[verifier::loop_isolation(false)]
    while rest.len() > 0
        invariant
            extract_all(Seq::empty(), allms) == extract_all(
                entries_view(set@),
                entries_view(rest@),
            ),
            no_dup_entries(entries_view(set@)),
        decreases rest.len(),
    {
        let ghost rest0 = rest@;
        let ghost rv = entries_view(rest@);
        proof {
            lemma_entries_view(rest0);
        }
        let attr = rest.remove(0);
        proof {
            lemma_entries_view(rest@);
            assert(rest@ =~= rest0.subrange(1, rest0.len() as int));
            assert(entries_view(rest@) =~= rv.subrange(1, rv.len() as int));
            assert(rv[0] == attr@);
        }
        let ghost acc_before = entries_view(set@);
        match get_meta_items(attr, &mut set) {
            Ok(_) => {
                proof {
                    if is_reserved(rv[0]) {
                        match rv[0] {
                            MetaV::List { entries, .. } => {
                                lemma_add_entries_no_dup(acc_before, entries);
                            },
                            _ => {},
                        }
                    }
                }
            },
            Err(d) => {
                proof {
                    assert(rv.len() > 0);
                    assert(extract_all(Seq::empty(), allms) == extract_all(acc_before, rv));
                    assert(extract_one(acc_before, rv[0]) matches Err(e) && e.0 == d.kind && e.1
                        == d.span);
                    assert(extract_all(acc_before, rv) matches Err(e) && e.0 == d.kind && e.1
                        == d.span);
                }
                return Err(d);
            },
        }
    }
    proof {
        assert(entries_view(rest@) =~= Seq::<MetaV>::empty());
    }
    Ok(set)
}

/// The entries a loose walk yields: the nested entries of every reserved
/// attribute, in order, without deduplication; a reserved attribute that is
/// not a parenthesized list is malformed and fails the walk.
pub open spec fn extract_loose(ms: Seq<MetaV>) -> Result<Seq<MetaV>, (DiagKind, Span)>
    decreases ms.len(),
{
    if ms.len() == 0 {
        Ok(Seq::empty())
    } else if is_reserved(ms[0]) {
        match ms[0] {
            MetaV::List { entries, .. } => match extract_loose(ms.subrange(1, ms.len() as int)) {
                Ok(r) => Ok(entries + r),
                Err(e) => Err(e),
            },
            _ => Err((DiagKind::MalformedMetadata, meta_path_of(ms[0]).span)),
        }
    } else {
        extract_loose(ms.subrange(1, ms.len() as int))
    }
}

/// Walks one attribute and returns its normalized entries in order, without
/// deduplication; an attribute outside the namespace yields none, and a
/// malformed reserved attribute is refused.
pub fn get_meta_items2(attr: MetaEntry) -> (r: Result<Vec<MetaEntry>, Diag>)
    ensures
        match r {
            Ok(v) => if is_reserved(attr@) {
                attr@ matches MetaV::List { entries, .. } && entries_view(v@) == entries
            } else {
                v@.len() == 0
            },
            Err(d) => is_reserved(attr@) && !(attr@ is List) && d.kind
                == DiagKind::MalformedMetadata && d.span == meta_path_of(attr@).span && d.msg@
                == "expected #[enum_repr(...)]"@,
        },
{
    let id = sym_id();
    let reserved = match &attr {
        MetaEntry::Path(p) => path_is(p, &id),
        MetaEntry::NameValue { path, .. } => path_is(path, &id),
        MetaEntry::List { path, .. } => path_is(path, &id),
    };
    if !reserved {
        return Ok(Vec::new());
    }
    match attr {
        MetaEntry::List { path: _, entries, span: _ } => Ok(entries),
        MetaEntry::NameValue { path, .. } => Err(
            Diag::new(DiagKind::MalformedMetadata, path.span, "expected #[enum_repr(...)]"),
        ),
        MetaEntry::Path(p) => Err(
            Diag::new(DiagKind::MalformedMetadata, p.span, "expected #[enum_repr(...)]"),
        ),
    }
}

/// Walks a whole attribute list loosely: collects the entries of every
/// reserved attribute in order without deduplication, passes over
/// attributes of other tooling, and fails on the first malformed reserved
/// attribute.
pub fn get_all_attrs2(attrs: Vec<MetaEntry>) -> (r: Result<Vec<MetaEntry>, Diag>)
    ensures
        match r {
            Ok(v) => extract_loose(entries_view(attrs@)) == Ok::<Seq<MetaV>, (DiagKind, Span)>(
                entries_view(v@),
            ),
            Err(d) => extract_loose(entries_view(attrs@)) matches Err(e) && e.0 == d.kind && e.1
                == d.span && d.msg@ == "expected #[enum_repr(...)]"@,
        },
{
    let ghost allms = entries_view(attrs@);
    let mut out: Vec<MetaEntry> = Vec::new();
    let mut rest = attrs;
    proof {
        assert(entries_view(out@) =~= Seq::<MetaV>::empty());
        assert forall|t: Seq<MetaV>| #[trigger] (Seq::<MetaV>::empty() + t) == t by {
            assert(Seq::<MetaV>::empty() + t =~= t);
        }
    }
    #[verifier::loop_isolation(false)]
    while rest.len() > 0
        invariant
            extract_loose(allms) == (match extract_loose(entries_view(rest@)) {
                Ok(t) => Ok::<Seq<MetaV>, (DiagKind, Span)>(entries_view(out@) + t),
                Err(e) => Err(e),
            }),
        decreases rest.len(),
    {
        let ghost rest0 = rest@;
        let ghost rv = entries_view(rest@);
        let ghost out_before = entries_view(out@);
        proof {
            lemma_entries_view(rest0);
        }
        let attr = rest.remove(0);
        proof {
            lemma_entries_view(rest@);
            assert(rest@ =~= rest0.subrange(1, rest0.len() as int));
            assert(entries_view(rest@) =~= rv.subrange(1, rv.len() as int));
            assert(rv[0] == attr@);
        }
        let mut items = match get_meta_items2(attr) {
            Ok(items) => items,
            Err(d) => {
                return Err(d);
            },
        };
        let ghost items0 = entries_view(items@);
        proof {
            lemma_entries_view(items@);
        }
        #[verifier::loop_isolation(false)]
        while items.len() > 0
            invariant
                entries_view(out@) == out_before + items0.subrange(
                    0,
                    items0.len() - entries_view(items@).len(),
                ),
                items0.len() >= entries_view(items@).len(),
                entries_view(items@) == items0.subrange(
                    items0.len() - entries_view(items@).len(),
                    items0.len() as int,
                ),
            decreases items.len(),
        {
            let ghost iv = entries_view(items@);
            let ghost ov = entries_view(out@);
            proof {
                lemma_entries_view(items@);
            }
            let e = items.remove(0);
            proof {
                lemma_entries_view(items@);
                assert(entries_view(items@) =~= iv.subrange(1, iv.len() as int));
                assert(iv[0] == e@);
            }
            let ghost before_push = out@;
            out.push(e);
            proof {
                assert(out@.subrange(0, out@.len() - 1) =~= before_push);
                assert(entries_view(out@) =~= ov.push(iv[0]));
                assert(entries_view(out@) =~= out_before + items0.subrange(
                    0,
                    items0.len() - entries_view(items@).len(),
                ));
                assert(entries_view(items@) =~= items0.subrange(
                    items0.len() - entries_view(items@).len(),
                    items0.len() as int,
                ));
            }
        }
        proof {
            assert(entries_view(items@) =~= Seq::<MetaV>::empty());
            assert(entries_view(out@) =~= out_before + items0);
            assert forall|t: Seq<MetaV>| #[trigger] (out_before + (items0 + t))
                == entries_view(out@) + t by {
                assert(out_before + (items0 + t) =~= entries_view(out@) + t);
            }
        }
    }
    proof {
        assert(entries_view(rest@) =~= Seq::<MetaV>::empty());
        assert(extract_loose(entries_view(rest@)) == Ok::<Seq<MetaV>, (DiagKind, Span)>(
            Seq::empty(),
        ));
        assert(entries_view(out@) + Seq::<MetaV>::empty() =~= entries_view(out@));
    }
    Ok(out)
}

} // verus!
