use mac_derive::bucket::{AttributesBucket, ContainerAttr, VariantAttr};
use mac_derive::case::RenameRule;
use mac_derive::meta::{Lit, MetaEntry, MetaPath};
use mac_derive::span::{DiagKind, Span};

fn sp(lo: usize, hi: usize) -> Span {
    Span { lo, hi }
}

fn word(w: &str, lo: usize, hi: usize) -> MetaPath {
    MetaPath { segments: vec![w.to_owned()], span: sp(lo, hi) }
}

fn s_lit(text: &str, lo: usize, hi: usize) -> Lit {
    Lit::Str { text: text.to_owned(), span: sp(lo, hi) }
}

#[test]
fn container_default_builds_default_variant() {
    let r = ContainerAttr::from_name_value(&word("default", 0, 7), &s_lit("Var1", 10, 16));
    match r.unwrap() {
        ContainerAttr::DefaultVariant(id) => {
            assert_eq!(id.name, "Var1");
            assert_eq!(id.span, sp(10, 16));
        },
        other => panic!("wrong option: {:?}", other),
    }
}

#[test]
fn container_rename_all_builds_rename_all() {
    let r = ContainerAttr::from_name_value(&word("rename_all", 0, 10), &s_lit("UPPERCASE", 13, 24));
    assert!(matches!(r.unwrap(), ContainerAttr::RenameAll(RenameRule::Upper)));
}

#[test]
fn container_repr_builds_repr_type() {
    let r = ContainerAttr::from_name_value(&word("repr", 0, 4), &s_lit("u16", 7, 12));
    match r.unwrap() {
        ContainerAttr::ReprType(id) => assert_eq!(id.name, "u16"),
        other => panic!("wrong option: {:?}", other),
    }
}

#[test]
fn container_conversion_keys_build_their_options() {
    let f = ContainerAttr::from_name_value(&word("from", 0, 4), &s_lit("Src", 7, 12)).unwrap();
    assert!(matches!(f, ContainerAttr::FromType(ref id) if id.name == "Src"));
    let i = ContainerAttr::from_name_value(&word("into", 0, 4), &s_lit("Dst", 7, 12)).unwrap();
    assert!(matches!(i, ContainerAttr::IntoType(ref id) if id.name == "Dst"));
    let t = ContainerAttr::from_name_value(&word("try_from", 0, 8), &s_lit("Src", 11, 16)).unwrap();
    assert!(matches!(t, ContainerAttr::TryFromType(ref id) if id.name == "Src"));
}

#[test]
fn container_other_keeps_raw_text() {
    let r = ContainerAttr::from_name_value(
        &word("other", 0, 5),
        &Lit::Int { value: 5, span: sp(8, 9) },
    );
    match r.unwrap() {
        ContainerAttr::OtherMetadata(text) => assert_eq!(text, "other = 5"),
        other => panic!("wrong option: {:?}", other),
    }
}

#[test]
fn container_attr_list_keeps_raw_text() {
    let entries = vec![
        MetaEntry::Path(word("non_exhaustive", 6, 20)),
        MetaEntry::NameValue { path: word("align", 22, 27), lit: Lit::Int { value: 8, span: sp(30, 31) } },
    ];
    let r = ContainerAttr::from_list(&word("attr", 0, 4), &entries, sp(0, 32));
    match r.unwrap() {
        ContainerAttr::ArbitraryAttr(text) => assert_eq!(text, "attr(non_exhaustive, align = 8)"),
        other => panic!("wrong option: {:?}", other),
    }
}

#[test]
fn container_unrecognized_key_is_refused_with_its_name_position() {
    let r = ContainerAttr::from_name_value(&word("foo", 3, 6), &s_lit("bar", 9, 14));
    let e = r.unwrap_err();
    assert_eq!(e.kind, DiagKind::UnrecognizedOption);
    assert_eq!(e.span, sp(3, 6));
    assert_eq!(e.msg, "unexpected container attribute foo");
}

#[test]
fn container_rename_all_bad_rule_is_invalid_case_rule() {
    let r = ContainerAttr::from_name_value(&word("rename_all", 0, 10), &s_lit("UPPER", 13, 20));
    let e = r.unwrap_err();
    assert_eq!(e.kind, DiagKind::InvalidCaseRule);
    assert_eq!(e.span, sp(13, 20));
}

#[test]
fn container_default_int_payload_is_unsupported_literal() {
    let r = ContainerAttr::from_name_value(
        &word("default", 0, 7),
        &Lit::Int { value: 3, span: sp(10, 11) },
    );
    let e = r.unwrap_err();
    assert_eq!(e.kind, DiagKind::UnsupportedLiteralKind);
    assert_eq!(e.span, sp(10, 11));
}

#[test]
fn container_default_bad_ident_is_reparse_error() {
    let r = ContainerAttr::from_name_value(&word("default", 0, 7), &s_lit("not ident", 10, 21));
    let e = r.unwrap_err();
    assert_eq!(e.kind, DiagKind::ReparseError);
    assert_eq!(e.span, sp(10, 21));
}

#[test]
fn container_default_list_wraps_a_variant_path() {
    let entries = vec![MetaEntry::Path(word("Var2", 8, 12))];
    let r = ContainerAttr::from_list(&word("default", 0, 7), &entries, sp(0, 13));
    match r.unwrap() {
        ContainerAttr::DefaultVariant(id) => {
            assert_eq!(id.name, "Var2");
            assert_eq!(id.span, sp(8, 12));
        },
        other => panic!("wrong option: {:?}", other),
    }
}

#[test]
fn variant_discr_keeps_raw_expression_text() {
    let r = VariantAttr::from_name_value(&word("discr", 0, 5), &s_lit("1 + 2", 8, 15));
    match r.unwrap() {
        VariantAttr::Discriminant(text) => assert_eq!(text, "1 + 2"),
        other => panic!("wrong option: {:?}", other),
    }
}

#[test]
fn variant_rename_parses_case_rule() {
    let r = VariantAttr::from_name_value(&word("rename", 0, 6), &s_lit("snake_case", 9, 21));
    assert!(matches!(r.unwrap(), VariantAttr::Rename(RenameRule::Snake)));
}

#[test]
fn variant_default_takes_a_boolean() {
    let r = VariantAttr::from_name_value(
        &word("default", 0, 7),
        &Lit::Bool { value: true, span: sp(10, 14) },
    );
    assert!(matches!(r.unwrap(), VariantAttr::IsDefault(true)));
}

#[test]
fn variant_other_list_is_a_transparency_marker() {
    let r = VariantAttr::from_list(&word("other", 0, 5), &Vec::new(), sp(0, 7));
    assert!(matches!(r.unwrap(), VariantAttr::TransparentMarker));
}

#[test]
fn variant_discr_non_string_is_malformed() {
    let r = VariantAttr::from_name_value(
        &word("discr", 0, 5),
        &Lit::Int { value: 7, span: sp(8, 9) },
    );
    let e = r.unwrap_err();
    assert_eq!(e.kind, DiagKind::MalformedMetadata);
    assert_eq!(e.span, sp(8, 9));
    assert_eq!(e.msg, "expected discr = \"str literal\"");
}

#[test]
fn variant_unrecognized_key_is_refused() {
    let r = VariantAttr::from_name_value(&word("skip", 2, 6), &s_lit("x", 9, 12));
    let e = r.unwrap_err();
    assert_eq!(e.kind, DiagKind::UnrecognizedOption);
    assert_eq!(e.span, sp(2, 6));
    assert_eq!(e.msg, "unexpected attribute skip");
}
