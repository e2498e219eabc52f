use mac_derive::case::RenameRule;
use mac_derive::span::DiagKind;

#[test]
fn round_trip_upper() {
    let r = RenameRule::from_str("UPPERCASE").unwrap();
    assert_eq!(r, RenameRule::Upper);
    assert_eq!(r.render(), "UPPERCASE");
}

#[test]
fn round_trip_lower() {
    let r = RenameRule::from_str("lowercase").unwrap();
    assert_eq!(r, RenameRule::Lower);
    assert_eq!(r.render(), "lowercase");
}

#[test]
fn round_trip_pascal() {
    let r = RenameRule::from_str("PascalCase").unwrap();
    assert_eq!(r, RenameRule::Pascal);
    assert_eq!(r.render(), "PascalCase");
}

#[test]
fn round_trip_snake() {
    let r = RenameRule::from_str("snake_case").unwrap();
    assert_eq!(r, RenameRule::Snake);
    assert_eq!(r.render(), "snake_case");
}

#[test]
fn round_trip_scream() {
    let r = RenameRule::from_str("SCREAMING_SNAKE_CASE").unwrap();
    assert_eq!(r, RenameRule::Scream);
    assert_eq!(r.render(), "SCREAMING_SNAKE_CASE");
}

#[test]
fn rejects_unknown_spellings() {
    for bad in ["", "UPPER", "uppercase", "Pascal", "snake-case", "SCREAMING", "UPPERCASE "] {
        let e = RenameRule::from_str(bad).unwrap_err();
        assert_eq!(e.kind, DiagKind::InvalidCaseRule);
        assert_eq!(
            e.msg,
            format!(
                "invalid rename attribute: {}, expected one of UPPERCASE | lowercase | PascalCase | snake_case | SCREAMING_SNAKE_CASE",
                bad
            )
        );
    }
}
