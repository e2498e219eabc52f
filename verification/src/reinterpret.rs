use vstd::prelude::*;
use vstd::string::StrSliceExecFns;
use crate::meta::{lit_span, Ident, IdentV, Lit, LitV};
use crate::span::{Diag, DiagKind, Span};

verus! {

/// Whether every byte is plain ASCII.
pub open spec fn is_ascii_bytes(b: Seq<u8>) -> bool {
    forall|i: int| 0 <= i < b.len() ==> b[i] < 128
}

/// The characters of an ASCII byte sequence, one per byte.
pub open spec fn ascii_chars(b: Seq<u8>) -> Seq<char> {
    Seq::new(b.len(), |i: int| b[i] as char)
}

/// What the lossy decoding of std returns on bytes that are not plain
/// ASCII: a fixed function of the bytes alone.
pub uninterp spec fn lossy_of(b: Seq<u8>) -> Seq<char>;

/// The text a byte-string payload decodes to: ASCII bytes decode to their
/// own characters; anything else is whatever the lossy decoding returns.
pub open spec fn lossy_text(b: Seq<u8>) -> Seq<char> {
    if is_ascii_bytes(b) {
        ascii_chars(b)
    } else {
        lossy_of(b)
    }
}

/// Relies on `String::from_utf8_lossy` of std: the result is a pure
/// function of the bytes, and ASCII bytes pass through unchanged.
#[verifier::external_body]
fn utf8_lossy(bytes: &Vec<u8>) -> (r: String)
    ensures
        r@ == lossy_text(bytes@),
        !is_ascii_bytes(bytes@) ==> r@ == lossy_of(bytes@),
{
    String::from_utf8_lossy(&bytes[..]).into_owned()
}

/// Whether a character can open an identifier.
pub open spec fn is_ident_start(c: char) -> bool {
    (97 <= c as u32 && c as u32 <= 122) || (65 <= c as u32 && c as u32 <= 90) || c == '_'
}

/// Whether a character can continue an identifier.
pub open spec fn is_ident_continue(c: char) -> bool {
    is_ident_start(c) || (48 <= c as u32 && c as u32 <= 57)
}

/// Whether a text is a well-formed identifier: nonempty, an identifier
/// start followed by identifier characters, and not the single underscore.
pub open spec fn is_ident_text(s: Seq<char>) -> bool {
    &&& s.len() > 0
    &&& is_ident_start(s[0])
    &&& forall|i: int| 0 <= i < s.len() ==> is_ident_continue(#[trigger] s[i])
    &&& s != seq!['_']
}

/// What reinterpreting a literal as an identifier yields: the payload of a
/// string or byte-string literal, re-lexed as an identifier that carries
/// the literal's own source position; any other literal kind is refused,
/// and a payload that is no identifier fails to re-parse.
pub open spec fn reinterp_ident(l: LitV) -> Result<IdentV, (DiagKind, Span)> {
    match l {
        LitV::Str { text, span } => if is_ident_text(text) {
            Ok(IdentV { name: text, span })
        } else {
            Err((DiagKind::ReparseError, span))
        },
        LitV::ByteStr { bytes, span } => if is_ident_text(lossy_text(bytes)) {
            Ok(IdentV { name: lossy_text(bytes), span })
        } else {
            Err((DiagKind::ReparseError, span))
        },
        LitV::Int { span, .. } => Err((DiagKind::UnsupportedLiteralKind, span)),
        LitV::Bool { span, .. } => Err((DiagKind::UnsupportedLiteralKind, span)),
    }
}

/// Re-lexes a text as an identifier, tagging it with the given source
/// position instead of the position the text physically came from.
pub fn token_from_str(s: &str, span: Span) -> (r: Result<Ident, Diag>)
    ensures
        match r {
            Ok(id) => is_ident_text(s@) && id.name@ == s@ && id.span == span,
            Err(d) => !is_ident_text(s@) && d.kind == DiagKind::ReparseError && d.span == span
                && d.msg@ == "expected an identifier"@,
        },
{
    let n = s.unicode_len();
    if n == 0 {
        return Err(Diag::new(DiagKind::ReparseError, span, "expected an identifier"));
    }
    let first = s.get_char(0);
    let fu = first as u32;
    if !((97 <= fu && fu <= 122) || (65 <= fu && fu <= 90) || first == '_') {
        return Err(Diag::new(DiagKind::ReparseError, span, "expected an identifier"));
    }
    let mut i: usize = 1;
    while i < n
        invariant
            1 <= i <= n,
            n == s@.len(),
            is_ident_start(s@[0]),
            forall|j: int| 0 <= j < i ==> is_ident_continue(#[trigger] s@[j]),
        decreases n - i,
    {
        let c = s.get_char(i);
        let u = c as u32;
        if !((97 <= u && u <= 122) || (65 <= u && u <= 90) || c == '_' || (48 <= u && u <= 57)) {
            proof {
                assert(!is_ident_continue(s@[i as int]));
            }
            return Err(Diag::new(DiagKind::ReparseError, span, "expected an identifier"));
        }
        i = i + 1;
    }
    if n == 1 && first == '_' {
        proof {
            assert(s@ =~= seq!['_']);
        }
        return Err(Diag::new(DiagKind::ReparseError, span, "expected an identifier"));
    }
    proof {
        if s@ == seq!['_'] {
            assert(s@.len() == 1 && s@[0] == '_');
        }
        assert(is_ident_text(s@));
    }
    Ok(Ident { name: s.to_owned(), span })
}

/// Reinterprets a string or byte-string literal as an identifier. The
/// produced identifier's reported position is the literal's own position,
/// never the call site's, so diagnostics keep pointing at the literal.
pub fn token_from_lit(lit: &Lit) -> (r: Result<Ident, Diag>)
    ensures
        match r {
            Ok(id) => reinterp_ident(lit@) == Ok::<IdentV, (DiagKind, Span)>(id@),
            Err(d) => reinterp_ident(lit@) matches Err(e) && e.0 == d.kind && e.1 == d.span && (
            d.kind == DiagKind::ReparseError ==> d.msg@ == "expected an identifier"@) && (d.kind
                == DiagKind::UnsupportedLiteralKind ==> d.msg@ == "unsupported literal type"@),
        },
{
    match lit {
        Lit::Str { text, span } => token_from_str(text.as_str(), *span),
        Lit::ByteStr { bytes, span } => {
            let decoded = utf8_lossy(bytes);
            token_from_str(decoded.as_str(), *span)
        },
        _ => Err(
            Diag::new(DiagKind::UnsupportedLiteralKind, lit.span(), "unsupported literal type"),
        ),
    }
}

/// Reinterpretation never moves a token off its literal: whenever a literal
/// re-parses as an identifier, the identifier's position is the literal's
/// position.
pub proof fn lemma_reinterpret_keeps_span(l: LitV)
    ensures
        reinterp_ident(l) matches Ok(id) ==> id.span == lit_span(l),
{
}

/// A byte-string literal whose bytes are plain ASCII is accepted and
/// reinterpreted exactly as the string literal spelling the same text.
pub proof fn lemma_byte_str_like_str(bytes: Seq<u8>, sp: Span)
    requires
        is_ascii_bytes(bytes),
    ensures
        reinterp_ident(LitV::ByteStr { bytes, span: sp }) == reinterp_ident(
            LitV::Str { text: ascii_chars(bytes), span: sp },
        ),
{
}

} // verus!
