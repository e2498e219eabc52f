use mac_derive::bucket::{ContainerAttr, VariantAttr};
use mac_derive::case::RenameRule;
use mac_derive::ir::{DiscrValue, Enum, FieldsShape, RawData, RawInput, RawVariant};
use mac_derive::meta::{Ident, Lit, MetaEntry, MetaPath};
use mac_derive::span::{DiagKind, Span};
use mac_derive::token::Tok;

fn sp(lo: usize, hi: usize) -> Span {
    Span { lo, hi }
}

fn ident(name: &str, lo: usize) -> Ident {
    Ident { name: name.to_owned(), span: sp(lo, lo + name.len()) }
}

fn word(w: &str, lo: usize) -> MetaPath {
    MetaPath { segments: vec![w.to_owned()], span: sp(lo, lo + w.len()) }
}

fn nv(key: &str, text: &str, lo: usize) -> MetaEntry {
    MetaEntry::NameValue {
        path: word(key, lo),
        lit: Lit::Str { text: text.to_owned(), span: sp(lo + key.len() + 3, lo + key.len() + 5 + text.len()) },
    }
}

fn reserved(entries: Vec<MetaEntry>, lo: usize, hi: usize) -> MetaEntry {
    MetaEntry::List { path: word("enum_repr", lo), entries, span: sp(lo, hi) }
}

fn plain_variant(name: &str, lo: usize, discr: Option<u64>) -> RawVariant {
    RawVariant {
        attrs: Vec::new(),
        ident: ident(name, lo),
        fields: FieldsShape::Unit,
        discr: discr.map(DiscrValue::Value),
    }
}

#[test]
fn renamed_enum_keeps_rule_order_and_positional_discriminants() {
    let input = RawInput {
        attrs: vec![reserved(vec![nv("rename_all", "UPPERCASE", 10)], 0, 40)],
        ident: ident("Choice", 50),
        generics: Vec::new(),
        data: RawData::EnumData {
            variants: vec![
                plain_variant("Variant1", 60, Some(2)),
                plain_variant("Variant2", 80, None),
                plain_variant("Variant3", 100, None),
                plain_variant("Variant4", 120, None),
            ],
        },
    };
    let en = Enum::from_input(input).unwrap();
    assert_eq!(en.attrs.len(), 1);
    assert!(matches!(en.attrs[0], ContainerAttr::RenameAll(RenameRule::Upper)));
    let names: Vec<&str> = en.variants.iter().map(|v| v.ident.name.as_str()).collect();
    assert_eq!(names, ["Variant1", "Variant2", "Variant3", "Variant4"]);
    let discrs = en.effective_discriminants().unwrap();
    assert_eq!(discrs, [2, 3, 4, 5]);
}

#[test]
fn unrecognized_container_key_aborts_assembly_at_the_key() {
    let input = RawInput {
        attrs: vec![reserved(vec![nv("foo", "bar", 10)], 0, 30)],
        ident: ident("Choice", 40),
        generics: Vec::new(),
        data: RawData::EnumData { variants: vec![plain_variant("A", 50, None)] },
    };
    let e = Enum::from_input(input).unwrap_err();
    assert_eq!(e.kind, DiagKind::UnrecognizedOption);
    assert_eq!(e.span, sp(10, 13));
}

#[test]
fn structures_are_not_assembled() {
    let input = RawInput {
        attrs: Vec::new(),
        ident: ident("NotE", 7),
        generics: Vec::new(),
        data: RawData::StructData,
    };
    let e = Enum::from_input(input).unwrap_err();
    assert_eq!(e.kind, DiagKind::NotAnEnum);
    assert_eq!(e.span, sp(7, 11));
}

#[test]
fn failing_variant_aborts_the_whole_assembly() {
    let bad = RawVariant {
        attrs: vec![reserved(vec![nv("skip", "x", 70)], 60, 90)],
        ident: ident("B", 55),
        fields: FieldsShape::Unit,
        discr: None,
    };
    let input = RawInput {
        attrs: Vec::new(),
        ident: ident("Choice", 0),
        generics: Vec::new(),
        data: RawData::EnumData { variants: vec![plain_variant("A", 40, None), bad] },
    };
    let e = Enum::from_input(input).unwrap_err();
    assert_eq!(e.kind, DiagKind::UnrecognizedOption);
    assert_eq!(e.span, sp(70, 74));
}

#[test]
fn variant_bucket_carries_discr_and_rename() {
    let v = RawVariant {
        attrs: vec![reserved(vec![nv("discr", "CONST_A", 10), nv("rename", "lowercase", 40)], 0, 70)],
        ident: ident("A", 80),
        fields: FieldsShape::Unit,
        discr: None,
    };
    let input = RawInput {
        attrs: Vec::new(),
        ident: ident("Choice", 90),
        generics: Vec::new(),
        data: RawData::EnumData { variants: vec![v] },
    };
    let en = Enum::from_input(input).unwrap();
    assert_eq!(en.variants.len(), 1);
    let attrs = &en.variants[0].attrs;
    assert_eq!(attrs.len(), 2);
    assert!(matches!(attrs[0], VariantAttr::Discriminant(ref t) if t == "CONST_A"));
    assert!(matches!(attrs[1], VariantAttr::Rename(RenameRule::Lower)));
}

#[test]
fn duplicate_option_in_one_bucket_is_kept_once() {
    let input = RawInput {
        attrs: vec![
            reserved(vec![nv("default", "V1", 10)], 0, 30),
            reserved(vec![nv("default", "V1", 50)], 40, 70),
        ],
        ident: ident("Choice", 80),
        generics: Vec::new(),
        data: RawData::EnumData { variants: vec![plain_variant("V1", 90, None)] },
    };
    let en = Enum::from_input(input).unwrap();
    assert_eq!(en.attrs.len(), 1);
    assert!(matches!(en.attrs[0], ContainerAttr::DefaultVariant(ref id) if id.name == "V1"));
}

#[test]
fn discriminant_overflow_is_reported_as_none() {
    let input = RawInput {
        attrs: Vec::new(),
        ident: ident("Choice", 0),
        generics: Vec::new(),
        data: RawData::EnumData {
            variants: vec![plain_variant("A", 10, Some(u64::MAX)), plain_variant("B", 20, None)],
        },
    };
    let en = Enum::from_input(input).unwrap();
    assert!(en.effective_discriminants().is_none());
}

#[test]
fn reserved_name_value_attribute_is_dispatched_and_refused() {
    // `enum_repr = "x"` reaches the bucket as a name-value whose key is the
    // namespace itself, which no bucket recognizes
    let input = RawInput {
        attrs: vec![nv("enum_repr", "x", 3)],
        ident: ident("Choice", 30),
        generics: Vec::new(),
        data: RawData::EnumData { variants: vec![plain_variant("A", 40, None)] },
    };
    let e = Enum::from_input(input).unwrap_err();
    assert_eq!(e.kind, DiagKind::UnrecognizedOption);
    assert_eq!(e.span, sp(3, 12));
}

#[test]
fn bare_path_inside_the_reserved_list_is_malformed() {
    let input = RawInput {
        attrs: vec![reserved(vec![MetaEntry::Path(word("transparent", 10))], 0, 30)],
        ident: ident("Choice", 40),
        generics: Vec::new(),
        data: RawData::EnumData { variants: vec![plain_variant("A", 50, None)] },
    };
    let e = Enum::from_input(input).unwrap_err();
    assert_eq!(e.kind, DiagKind::MalformedMetadata);
    assert_eq!(e.span, sp(10, 21));
}

#[test]
fn discriminants_start_at_zero_when_none_is_declared() {
    let input = RawInput {
        attrs: Vec::new(),
        ident: ident("Choice", 0),
        generics: Vec::new(),
        data: RawData::EnumData {
            variants: vec![
                plain_variant("A", 10, None),
                plain_variant("B", 20, Some(7)),
                plain_variant("C", 30, None),
            ],
        },
    };
    let en = Enum::from_input(input).unwrap();
    assert_eq!(en.effective_discriminants().unwrap(), [0, 7, 8]);
}

#[test]
fn raw_discriminant_expressions_have_no_static_value() {
    let raw = RawVariant {
        attrs: Vec::new(),
        ident: ident("A", 10),
        fields: FieldsShape::Unit,
        discr: Some(DiscrValue::Raw(vec![Tok::Ident(Ident {
            name: "X".to_owned(),
            span: sp(14, 15),
        })])),
    };
    let input = RawInput {
        attrs: Vec::new(),
        ident: ident("Choice", 0),
        generics: Vec::new(),
        data: RawData::EnumData { variants: vec![raw] },
    };
    let en = Enum::from_input(input).unwrap();
    assert!(matches!(en.variants[0].discr, Some(DiscrValue::Raw(_))));
    assert!(en.effective_discriminants().is_none());
}

#[test]
fn unrecognized_key_diagnostic_names_the_key() {
    let input = RawInput {
        attrs: vec![reserved(vec![nv("foo", "bar", 10)], 0, 30)],
        ident: ident("Choice", 40),
        generics: Vec::new(),
        data: RawData::EnumData { variants: vec![plain_variant("A", 50, None)] },
    };
    let e = Enum::from_input(input).unwrap_err();
    assert_eq!(e.msg, "unexpected container attribute foo");
}
