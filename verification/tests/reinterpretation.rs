use mac_derive::meta::{Ident, Lit, MetaEntry, MetaPath, render_entry};
use mac_derive::reinterpret::{token_from_str, token_from_lit};
use mac_derive::span::{DiagKind, Span};
use mac_derive::token::{lit_from_token, respan_token_stream, respan_token_tree, string_from_lit, Delim, Tok};

fn sp(lo: usize, hi: usize) -> Span {
    Span { lo, hi }
}

#[test]
fn string_literal_reinterprets_at_the_literal_position() {
    let lit = Lit::Str { text: "Foo".to_owned(), span: sp(17, 22) };
    let id = token_from_lit(&lit).unwrap();
    assert_eq!(id.name, "Foo");
    assert_eq!(id.span, sp(17, 22));
}

#[test]
fn byte_string_literal_reinterprets_like_the_string_one() {
    let s = token_from_lit(&Lit::Str { text: "Foo".to_owned(), span: sp(4, 9) }).unwrap();
    let b = token_from_lit(&Lit::ByteStr { bytes: b"Foo".to_vec(), span: sp(4, 9) }).unwrap();
    assert_eq!(s.name, b.name);
    assert_eq!(s.span, b.span);
}

#[test]
fn non_utf8_byte_string_payload_fails_to_reparse() {
    let bad = Lit::ByteStr { bytes: vec![0xff, 0xfe], span: sp(1, 5) };
    let e = token_from_lit(&bad).unwrap_err();
    assert_eq!(e.kind, DiagKind::ReparseError);
    assert_eq!(e.span, sp(1, 5));
}

#[test]
fn numeric_literal_kind_is_unsupported() {
    let e = token_from_lit(&Lit::Int { value: 2, span: sp(3, 4) }).unwrap_err();
    assert_eq!(e.kind, DiagKind::UnsupportedLiteralKind);
    assert_eq!(e.span, sp(3, 4));
}

#[test]
fn invalid_identifier_payload_is_a_reparse_error() {
    for bad in ["", "_", "1abc", "has space", "a-b"] {
        let e = token_from_str(bad, sp(7, 9)).unwrap_err();
        assert_eq!(e.kind, DiagKind::ReparseError);
        assert_eq!(e.span, sp(7, 9));
    }
    assert!(token_from_str("_x", sp(0, 1)).is_ok());
    assert!(token_from_str("Abc1", sp(0, 1)).is_ok());
}

#[test]
fn respan_rewrites_every_position_including_nested_groups() {
    let inner = Tok::Ident(Ident { name: "x".to_owned(), span: sp(1, 2) });
    let group = Tok::Group { delim: Delim::Paren, toks: vec![inner], span: sp(0, 3) };
    let out = respan_token_tree(&group, sp(40, 45));
    match out {
        Tok::Group { toks, span, .. } => {
            assert_eq!(span, sp(40, 45));
            match &toks[0] {
                Tok::Ident(id) => assert_eq!(id.span, sp(40, 45)),
                other => panic!("wrong token: {:?}", other),
            }
        },
        other => panic!("wrong token: {:?}", other),
    }
}

#[test]
fn respan_stream_covers_every_token() {
    let toks = vec![
        Tok::Punct { ch: ':', span: sp(0, 1) },
        Tok::Literal(Lit::Int { value: 7, span: sp(2, 3) }),
    ];
    let out = respan_token_stream(&toks, sp(9, 12));
    match &out[0] {
        Tok::Punct { span, .. } => assert_eq!(*span, sp(9, 12)),
        other => panic!("wrong token: {:?}", other),
    }
    match &out[1] {
        Tok::Literal(Lit::Int { value, span }) => {
            assert_eq!(*value, 7);
            assert_eq!(*span, sp(9, 12));
        },
        other => panic!("wrong token: {:?}", other),
    }
}

#[test]
fn inverse_reinterpretation_wraps_a_token_as_a_string_literal() {
    let tok = Tok::Ident(Ident { name: "V1".to_owned(), span: sp(11, 13) });
    match lit_from_token(&tok) {
        Lit::Str { text, span } => {
            assert_eq!(text, "V1");
            assert_eq!(span, sp(11, 13));
        },
        other => panic!("wrong literal: {:?}", other),
    }
}

#[test]
fn string_from_lit_takes_only_plain_strings() {
    let ok = string_from_lit(&Lit::Str { text: "hi".to_owned(), span: sp(0, 4) }).unwrap();
    assert_eq!(ok, "hi");
    let e = string_from_lit(&Lit::Bool { value: false, span: sp(5, 10) }).unwrap_err();
    assert_eq!(e.kind, DiagKind::UnsupportedLiteralKind);
    assert_eq!(e.span, sp(5, 10));
}

#[test]
fn rendering_writes_numbers_escapes_and_paths_back_out() {
    let entry = MetaEntry::NameValue {
        path: MetaPath { segments: vec!["a".to_owned(), "b".to_owned()], span: sp(0, 4) },
        lit: Lit::Str { text: "say \"hi\"".to_owned(), span: sp(7, 18) },
    };
    assert_eq!(render_entry(&entry), "a::b = \"say \\\"hi\\\"\"");
    let num = MetaEntry::NameValue {
        path: MetaPath { segments: vec!["n".to_owned()], span: sp(0, 1) },
        lit: Lit::Int { value: 1048576, span: sp(4, 11) },
    };
    assert_eq!(render_entry(&num), "n = 1048576");
    let bytes = MetaEntry::NameValue {
        path: MetaPath { segments: vec!["b".to_owned()], span: sp(0, 1) },
        lit: Lit::ByteStr { bytes: vec![b'o', b'k', 0x00], span: sp(4, 12) },
    };
    assert_eq!(render_entry(&bytes), "b = b\"ok\\x00\"");
}
