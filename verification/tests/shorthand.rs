use mac_derive::bucket::ContainerAttr;
use mac_derive::case::RenameRule;
use mac_derive::ir::{DiscrValue, Enum, RawData};
use mac_derive::macro_enum::{lower_enum_macro, parse_enum_macro};
use mac_derive::meta::{Ident, Lit, MetaEntry};
use mac_derive::span::{DiagKind, Span};
use mac_derive::token::{Delim, Tok};

fn sp(lo: usize, hi: usize) -> Span {
    Span { lo, hi }
}

fn id(name: &str, lo: usize) -> Tok {
    Tok::Ident(Ident { name: name.to_owned(), span: sp(lo, lo + name.len()) })
}

fn punct(ch: char, lo: usize) -> Tok {
    Tok::Punct { ch, span: sp(lo, lo + 1) }
}

fn int_lit(value: u64, lo: usize) -> Tok {
    Tok::Literal(Lit::Int { value, span: sp(lo, lo + 1) })
}

/// `enum E: u16 -> V1 { V1(C1 = 1), V2(C2 = 2) }` as tokens.
fn shorthand_tokens() -> Vec<Tok> {
    let body = vec![
        id("V1", 20),
        Tok::Group { delim: Delim::Paren, toks: vec![id("C1", 23), punct('=', 26), int_lit(1, 28)], span: sp(22, 29) },
        punct(',', 30),
        id("V2", 32),
        Tok::Group { delim: Delim::Paren, toks: vec![id("C2", 35), punct('=', 38), int_lit(2, 40)], span: sp(34, 41) },
    ];
    vec![
        id("enum", 0),
        id("E", 5),
        punct(':', 6),
        id("u16", 8),
        punct('-', 12),
        punct('>', 13),
        id("V1", 15),
        Tok::Group { delim: Delim::Brace, toks: body, span: sp(18, 43) },
    ]
}

#[test]
fn shorthand_parses_its_pieces() {
    let em = parse_enum_macro(&shorthand_tokens()).unwrap();
    assert_eq!(em.ident.name, "E");
    assert_eq!(em.repr.name, "u16");
    assert_eq!(em.default.name, "V1");
    assert!(!em.vis_public);
    assert_eq!(em.variants.len(), 2);
    assert_eq!(em.variants[0].ident.name, "V1");
    assert_eq!(em.variants[0].fields.ident.name, "C1");
    assert_eq!(em.variants[1].fields.ident.name, "C2");
}

#[test]
fn shorthand_lowers_to_the_attributed_form() {
    let em = parse_enum_macro(&shorthand_tokens()).unwrap();
    let lowered = lower_enum_macro(em);
    assert_eq!(lowered.ident.name, "E");
    // repr(u16), derive(EnumRepr), enum_repr(default = "V1")
    assert_eq!(lowered.attrs.len(), 3);
    match &lowered.attrs[0] {
        MetaEntry::List { path, entries, .. } => {
            assert_eq!(path.segments, ["repr"]);
            assert!(matches!(&entries[0], MetaEntry::Path(p) if p.segments == ["u16"]));
        },
        other => panic!("wrong attribute: {:?}", other),
    }
    match &lowered.attrs[2] {
        MetaEntry::List { path, entries, .. } => {
            assert_eq!(path.segments, ["enum_repr"]);
            match &entries[0] {
                MetaEntry::NameValue { path, lit } => {
                    assert_eq!(path.segments, ["default"]);
                    assert!(matches!(lit, Lit::Str { text, .. } if text == "V1"));
                },
                other => panic!("wrong entry: {:?}", other),
            }
        },
        other => panic!("wrong attribute: {:?}", other),
    }
    match &lowered.data {
        RawData::EnumData { variants } => {
            assert_eq!(variants.len(), 2);
            assert_eq!(variants[0].ident.name, "V1");
            assert!(matches!(variants[0].discr, Some(DiscrValue::Value(1))));
            assert_eq!(variants[1].ident.name, "V2");
            assert!(matches!(variants[1].discr, Some(DiscrValue::Value(2))));
            // each variant carries enum_repr(discr = "<wrapped constant>")
            match &variants[0].attrs[0] {
                MetaEntry::List { entries, .. } => match &entries[0] {
                    MetaEntry::NameValue { path, lit } => {
                        assert_eq!(path.segments, ["discr"]);
                        assert!(matches!(lit, Lit::Str { text, .. } if text == "C1"));
                    },
                    other => panic!("wrong entry: {:?}", other),
                },
                other => panic!("wrong attribute: {:?}", other),
            }
        },
        other => panic!("wrong body: {:?}", other),
    }
}

#[test]
fn lowered_shorthand_reenters_assembly() {
    let em = parse_enum_macro(&shorthand_tokens()).unwrap();
    let lowered = lower_enum_macro(em);
    let en = Enum::from_input(lowered).unwrap();
    // the repr and derive attributes belong to other tooling; only the
    // default metadata lands in the container bucket
    assert_eq!(en.attrs.len(), 1);
    assert!(matches!(&en.attrs[0], ContainerAttr::DefaultVariant(id) if id.name == "V1"));
    assert_eq!(en.variants.len(), 2);
    let discrs = en.effective_discriminants().unwrap();
    assert_eq!(discrs, [1, 2]);
}

#[test]
fn missing_colon_is_a_syntax_error_at_the_wrong_token() {
    let toks = vec![id("enum", 0), id("E", 5), id("u16", 8)];
    let e = parse_enum_macro(&toks).unwrap_err();
    assert_eq!(e.kind, DiagKind::MacroSyntaxError);
    assert_eq!(e.span, sp(8, 11));
}

#[test]
fn missing_arrow_is_a_syntax_error() {
    let toks = vec![
        id("enum", 0),
        id("E", 5),
        punct(':', 6),
        id("u16", 8),
        Tok::Group { delim: Delim::Brace, toks: Vec::new(), span: sp(12, 14) },
    ];
    let e = parse_enum_macro(&toks).unwrap_err();
    assert_eq!(e.kind, DiagKind::MacroSyntaxError);
    assert_eq!(e.span, sp(12, 14));
}

#[test]
fn truncated_header_fails_at_the_end() {
    let toks = vec![id("enum", 0), id("E", 5), punct(':', 6)];
    let e = parse_enum_macro(&toks).unwrap_err();
    assert_eq!(e.kind, DiagKind::MacroSyntaxError);
    assert_eq!(e.span, sp(6, 7));
}

#[test]
fn malformed_variant_field_is_a_syntax_error() {
    let body = vec![
        id("V1", 20),
        Tok::Group { delim: Delim::Paren, toks: vec![int_lit(1, 23)], span: sp(22, 25) },
    ];
    let toks = vec![
        id("enum", 0),
        id("E", 5),
        punct(':', 6),
        id("u16", 8),
        punct('-', 12),
        punct('>', 13),
        id("V1", 15),
        Tok::Group { delim: Delim::Brace, toks: body, span: sp(18, 27) },
    ];
    let e = parse_enum_macro(&toks).unwrap_err();
    assert_eq!(e.kind, DiagKind::MacroSyntaxError);
    assert_eq!(e.span, sp(23, 24));
}

#[test]
fn public_shorthand_keeps_its_visibility() {
    let mut toks = shorthand_tokens();
    toks.insert(0, id("pub", 0));
    let em = parse_enum_macro(&toks).unwrap();
    assert!(em.vis_public);
}

#[test]
fn non_constant_discriminant_is_carried_as_raw_tokens() {
    let body = vec![
        id("V1", 20),
        Tok::Group {
            delim: Delim::Paren,
            toks: vec![id("C1", 23), punct('=', 26), id("X", 28), punct('+', 29), int_lit(1, 30)],
            span: sp(22, 31),
        },
    ];
    let toks = vec![
        id("enum", 0),
        id("E", 5),
        punct(':', 6),
        id("u16", 8),
        punct('-', 12),
        punct('>', 13),
        id("V1", 15),
        Tok::Group { delim: Delim::Brace, toks: body, span: sp(18, 33) },
    ];
    let em = parse_enum_macro(&toks).unwrap();
    let lowered = lower_enum_macro(em);
    match &lowered.data {
        RawData::EnumData { variants } => match &variants[0].discr {
            Some(DiscrValue::Raw(expr)) => {
                assert_eq!(expr.len(), 3);
                assert!(matches!(&expr[0], Tok::Ident(i) if i.name == "X"));
            },
            other => panic!("wrong discriminant: {:?}", other),
        },
        other => panic!("wrong body: {:?}", other),
    }
    // the lowered declaration still assembles; only the positional
    // discriminant computation declines to guess the value
    let en = Enum::from_input(lowered).unwrap();
    assert!(en.effective_discriminants().is_none());
}

#[test]
fn outer_attributes_are_parsed_and_carried() {
    // #[enum_repr(rename_all = "UPPERCASE")] before the declaration
    let attr_body = vec![
        id("enum_repr", 2),
        Tok::Group {
            delim: Delim::Paren,
            toks: vec![
                id("rename_all", 12),
                punct('=', 24),
                Tok::Literal(Lit::Str { text: "UPPERCASE".to_owned(), span: sp(26, 37) }),
            ],
            span: sp(11, 38),
        },
    ];
    let mut toks = vec![
        punct('#', 0),
        Tok::Group { delim: Delim::Bracket, toks: attr_body, span: sp(1, 39) },
    ];
    toks.extend(shorthand_tokens());
    let em = parse_enum_macro(&toks).unwrap();
    assert_eq!(em.attrs.len(), 1);
    let lowered = lower_enum_macro(em);
    // the carried attribute plus repr, derive and default metadata
    assert_eq!(lowered.attrs.len(), 4);
    let en = Enum::from_input(lowered).unwrap();
    assert!(en.attrs.iter().any(|a| matches!(a, ContainerAttr::RenameAll(RenameRule::Upper))));
    assert!(en.attrs.iter().any(|a| matches!(a, ContainerAttr::DefaultVariant(i) if i.name == "V1")));
}

#[test]
fn variant_attributes_are_parsed_and_carried() {
    // #[doc = "note"] before the first variant
    let attr_body = vec![
        id("doc", 21),
        punct('=', 25),
        Tok::Literal(Lit::Str { text: "note".to_owned(), span: sp(27, 33) }),
    ];
    let body = vec![
        punct('#', 19),
        Tok::Group { delim: Delim::Bracket, toks: attr_body, span: sp(20, 34) },
        id("V1", 36),
        Tok::Group { delim: Delim::Paren, toks: vec![id("C1", 39)], span: sp(38, 42) },
    ];
    let toks = vec![
        id("enum", 0),
        id("E", 5),
        punct(':', 6),
        id("u16", 8),
        punct('-', 12),
        punct('>', 13),
        id("V1", 15),
        Tok::Group { delim: Delim::Brace, toks: body, span: sp(18, 44) },
    ];
    let em = parse_enum_macro(&toks).unwrap();
    assert_eq!(em.variants.len(), 1);
    assert_eq!(em.variants[0].attrs.len(), 1);
    assert!(matches!(&em.variants[0].attrs[0], MetaEntry::NameValue { path, .. }
        if path.segments == ["doc"]));
}
