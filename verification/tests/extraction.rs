use mac_derive::extract::{get_all_attrs, get_all_attrs2, get_meta_items, get_meta_items2};
use mac_derive::meta::{entry_eq, Lit, MetaEntry, MetaPath};
use mac_derive::span::{DiagKind, Span};

fn sp(lo: usize, hi: usize) -> Span {
    Span { lo, hi }
}

fn word(w: &str, lo: usize, hi: usize) -> MetaPath {
    MetaPath { segments: vec![w.to_owned()], span: sp(lo, hi) }
}

fn nv(key: &str, text: &str, lo: usize) -> MetaEntry {
    MetaEntry::NameValue {
        path: word(key, lo, lo + key.len()),
        lit: Lit::Str { text: text.to_owned(), span: sp(lo + key.len() + 3, lo + key.len() + 5 + text.len()) },
    }
}

fn reserved_list(entries: Vec<MetaEntry>, lo: usize, hi: usize) -> MetaEntry {
    MetaEntry::List { path: word("enum_repr", lo, lo + 9), entries, span: sp(lo, hi) }
}

#[test]
fn identical_entries_are_deduplicated_to_one() {
    let a1 = reserved_list(vec![nv("rename_all", "UPPERCASE", 10)], 0, 40);
    let a2 = reserved_list(vec![nv("rename_all", "UPPERCASE", 60)], 50, 90);
    let set = get_all_attrs(vec![a1, a2]).unwrap();
    assert_eq!(set.len(), 1);
    assert!(entry_eq(&set[0], &nv("rename_all", "UPPERCASE", 0)));
}

#[test]
fn differing_payloads_are_both_kept() {
    let a1 = reserved_list(vec![nv("rename_all", "UPPERCASE", 10)], 0, 40);
    let a2 = reserved_list(vec![nv("rename_all", "lowercase", 60)], 50, 90);
    let set = get_all_attrs(vec![a1, a2]).unwrap();
    assert_eq!(set.len(), 2);
}

#[test]
fn attributes_of_other_tooling_pass_through_untouched() {
    let foreign = MetaEntry::List {
        path: word("serde", 0, 5),
        entries: vec![nv("rename_all", "UPPERCASE", 7)],
        span: sp(0, 30),
    };
    let set = get_all_attrs(vec![foreign]).unwrap();
    assert_eq!(set.len(), 0);
}

#[test]
fn reserved_attribute_of_wrong_shape_is_malformed() {
    let bad = nv("enum_repr", "x", 4);
    let e = get_all_attrs(vec![bad]).unwrap_err();
    assert_eq!(e.kind, DiagKind::MalformedMetadata);
    assert_eq!(e.span, sp(4, 13));
}

#[test]
fn bare_reserved_path_is_malformed() {
    let bad = MetaEntry::Path(word("enum_repr", 2, 11));
    let mut set: Vec<MetaEntry> = Vec::new();
    let e = get_meta_items(bad, &mut set).unwrap_err();
    assert_eq!(e.kind, DiagKind::MalformedMetadata);
    assert_eq!(e.span, sp(2, 11));
}

#[test]
fn loose_walk_keeps_order_and_duplicates() {
    let a1 = reserved_list(
        vec![nv("rename_all", "UPPERCASE", 10), nv("rename_all", "UPPERCASE", 30)],
        0,
        60,
    );
    let items = get_all_attrs2(vec![a1]).unwrap();
    assert_eq!(items.len(), 2);
}

#[test]
fn loose_single_attribute_walk_yields_its_entries() {
    let a1 = reserved_list(vec![nv("default", "V1", 10), nv("discr", "X", 30)], 0, 60);
    let items = get_meta_items2(a1).unwrap();
    assert_eq!(items.len(), 2);
    assert!(entry_eq(&items[0], &nv("default", "V1", 0)));
    assert!(entry_eq(&items[1], &nv("discr", "X", 0)));
}

#[test]
fn loose_walk_fails_on_malformed_reserved_attribute() {
    let good = reserved_list(vec![nv("default", "V1", 10)], 0, 40);
    let bad = nv("enum_repr", "x", 50);
    let e = get_all_attrs2(vec![good, bad]).unwrap_err();
    assert_eq!(e.kind, DiagKind::MalformedMetadata);
    assert_eq!(e.span, sp(50, 59));
    assert_eq!(e.msg, "expected #[enum_repr(...)]");
}
