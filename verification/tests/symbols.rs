use mac_derive::meta::MetaPath;
use mac_derive::span::Span;
use mac_derive::symbol::{path_is, sym_default, sym_id, Symbol};

#[test]
fn symbols_compare_against_parsed_words() {
    let s = Symbol::new("default");
    assert!(s.eq("default"));
    assert!(!s.eq("defaults"));
    assert_eq!(s.as_ref(), "default");
}

#[test]
fn one_word_paths_match_their_symbol() {
    let p = MetaPath { segments: vec!["enum_repr".to_owned()], span: Span { lo: 0, hi: 9 } };
    assert!(path_is(&p, &sym_id()));
    assert!(!path_is(&p, &sym_default()));
    let q = MetaPath {
        segments: vec!["a".to_owned(), "b".to_owned()],
        span: Span { lo: 0, hi: 4 },
    };
    assert!(!path_is(&q, &sym_id()));
}
