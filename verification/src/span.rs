use vstd::prelude::*;

verus! {

/// A source position: the half-open character range a fragment occupies in
/// the text it was read from. Every diagnostic carries one, and literal
/// reinterpretation rewrites the positions of the tokens it produces so that
/// they keep pointing at the originating literal.
#[derive(Clone, Copy, Debug, PartialEq, Eq, Structural)]
pub struct Span {
    pub lo: usize,
    pub hi: usize,
}

impl Span {
    /// The anchor used when no better position is known.
    pub fn call_site() -> (s: Span)
        ensures
            s == (Span { lo: 0, hi: 0 }),
    {
        Span { lo: 0, hi: 0 }
    }
}

/// The closed set of failure classes a diagnostic can carry.
#[derive(Clone, Copy, Debug, PartialEq, Eq, Structural)]
pub enum DiagKind {
    /// The declaration handed to IR assembly is not an enumeration.
    NotAnEnum,
    /// An attribute in the reserved namespace has none of the accepted shapes.
    MalformedMetadata,
    /// A metadata key is outside the recognized set for its bucket.
    UnrecognizedOption,
    /// A rename directive is not one of the five canonical case-rule spellings.
    InvalidCaseRule,
    /// A literal of a kind that reinterpretation does not accept.
    UnsupportedLiteralKind,
    /// A literal payload does not parse as the requested target grammar.
    ReparseError,
    /// The shorthand enum declaration breaks its grammar.
    MacroSyntaxError,
}

/// A positioned diagnostic: a failure class, the source span of the offending
/// fragment, and a human-readable message.
#[derive(Debug)]
pub struct Diag {
    pub kind: DiagKind,
    pub span: Span,
    pub msg: String,
}

impl Diag {
    pub fn new(kind: DiagKind, span: Span, msg: &str) -> (d: Diag)
        ensures
            d.kind == kind,
            d.span == span,
            d.msg@ == msg@,
    {
        Diag { kind, span, msg: msg.to_owned() }
    }
}

} // verus!
