use vstd::prelude::*;
use vstd::string::StrSliceExecFns;
use vstd::string::StringExecFns;
use crate::span::Span;
use crate::text::push_char;
use crate::text::str_eq;

verus! {

broadcast use vstd::seq::group_seq_axioms, vstd::std_specs::vec::group_vec_axioms;

/// An identifier together with the source position it was read from (or, for
/// a reinterpreted identifier, the position of the originating literal).
#[derive(Debug)]
pub struct Ident {
    pub name: String,
    pub span: Span,
}

/// Mathematical model of an identifier.
pub struct IdentV {
    pub name: Seq<char>,
    pub span: Span,
}

impl View for Ident {
    type V = IdentV;

    open spec fn view(&self) -> IdentV {
        IdentV { name: self.name@, span: self.span }
    }
}

/// A metadata key: a path of identifier segments, usually a single one.
#[derive(Debug)]
pub struct MetaPath {
    pub segments: Vec<String>,
    pub span: Span,
}

/// Mathematical model of a metadata key.
pub struct PathV {
    pub segments: Seq<Seq<char>>,
    pub span: Span,
}

impl View for MetaPath {
    type V = PathV;

    open spec fn view(&self) -> PathV {
        PathV { segments: self.segments@.map_values(|s: String| s@), span: self.span }
    }
}

/// A literal value carried by a name-value metadata entry. The closed set of
/// kinds the tool can see; reinterpretation accepts only the string forms.
#[derive(Debug)]
pub enum Lit {
    Str { text: String, span: Span },
    ByteStr { bytes: Vec<u8>, span: Span },
    Int { value: u64, span: Span },
    Bool { value: bool, span: Span },
}

/// Mathematical model of a literal.
pub enum LitV {
    Str { text: Seq<char>, span: Span },
    ByteStr { bytes: Seq<u8>, span: Span },
    Int { value: u64, span: Span },
    Bool { value: bool, span: Span },
}

impl View for Lit {
    type V = LitV;

    open spec fn view(&self) -> LitV {
        match self {
            Lit::Str { text, span } => LitV::Str { text: text@, span: *span },
            Lit::ByteStr { bytes, span } => LitV::ByteStr { bytes: bytes@, span: *span },
            Lit::Int { value, span } => LitV::Int { value: *value, span: *span },
            Lit::Bool { value, span } => LitV::Bool { value: *value, span: *span },
        }
    }
}

impl Lit {
    /// The source position of the literal.
    pub fn span(&self) -> (s: Span)
        ensures
            s == lit_span(self@),
    {
        match self {
            Lit::Str { span, .. } => *span,
            Lit::ByteStr { span, .. } => *span,
            Lit::Int { span, .. } => *span,
            Lit::Bool { span, .. } => *span,
        }
    }
}

/// The source position of a literal, at the model level.
pub open spec fn lit_span(l: LitV) -> Span {
    match l {
        LitV::Str { span, .. } => span,
        LitV::ByteStr { span, .. } => span,
        LitV::Int { span, .. } => span,
        LitV::Bool { span, .. } => span,
    }
}

/// One normalized metadata entry: the small recursive grammar every
/// attribute in the reserved namespace must fit.
#[derive(Debug)]
pub enum MetaEntry {
    /// A bare key, such as a marker word.
    Path(MetaPath),
    /// `key = literal`.
    NameValue { path: MetaPath, lit: Lit },
    /// `key(entry, entry, ...)`, possibly nested.
    List { path: MetaPath, entries: Vec<MetaEntry>, span: Span },
}

/// Mathematical model of a metadata entry.
pub enum MetaV {
    Path(PathV),
    NameValue { path: PathV, lit: LitV },
    List { path: PathV, entries: Seq<MetaV>, span: Span },
}

/// The model of an entry, descending into nested lists.
pub open spec fn entry_view(e: MetaEntry) -> MetaV
    decreases e,
{
    match e {
        MetaEntry::Path(p) => MetaV::Path(p@),
        MetaEntry::NameValue { path, lit } => MetaV::NameValue { path: path@, lit: lit@ },
        MetaEntry::List { path, entries, span } => MetaV::List {
            path: path@,
            entries: entries_view(entries@),
            span,
        },
    }
}

/// The models of a sequence of entries, in order.
pub open spec fn entries_view(s: Seq<MetaEntry>) -> Seq<MetaV>
    decreases s,
{
    if s.len() == 0 {
        Seq::empty()
    } else {
        entries_view(s.subrange(0, s.len() - 1)).push(entry_view(s.last()))
    }
}

impl View for MetaEntry {
    type V = MetaV;

    open spec fn view(&self) -> MetaV {
        entry_view(*self)
    }
}

/// `entries_view` maps element by element.
pub proof fn lemma_entries_view(s: Seq<MetaEntry>)
    ensures
        entries_view(s).len() == s.len(),
        forall|i: int| 0 <= i < s.len() ==> entries_view(s)[i] == entry_view(s[i]),
    decreases s,
{
    if s.len() > 0 {
        lemma_entries_view(s.subrange(0, s.len() - 1));
    }
}

/// Structural equality of key paths: same segments, positions ignored.
pub open spec fn path_eqv(a: PathV, b: PathV) -> bool {
    a.segments == b.segments
}

/// Structural equality of literals: same kind and payload, positions ignored.
pub open spec fn lit_eqv(a: LitV, b: LitV) -> bool {
    match (a, b) {
        (LitV::Str { text: x, .. }, LitV::Str { text: y, .. }) => x == y,
        (LitV::ByteStr { bytes: x, .. }, LitV::ByteStr { bytes: y, .. }) => x == y,
        (LitV::Int { value: x, .. }, LitV::Int { value: y, .. }) => x == y,
        (LitV::Bool { value: x, .. }, LitV::Bool { value: y, .. }) => x == y,
        _ => false,
    }
}

/// Structural equality of metadata entries: same shape, keys and payloads,
/// descending into nested lists; source positions are ignored, so two
/// textually identical entries written in different places are equal. This
/// is the equality the extraction step deduplicates by.
pub open spec fn entry_eqv(a: MetaV, b: MetaV) -> bool
    decreases a,
{
    match (a, b) {
        (MetaV::Path(p), MetaV::Path(q)) => path_eqv(p, q),
        (MetaV::NameValue { path: p, lit: x }, MetaV::NameValue { path: q, lit: y }) => path_eqv(
            p,
            q,
        ) && lit_eqv(x, y),
        (
            MetaV::List { path: p, entries: ea, .. },
            MetaV::List { path: q, entries: eb, .. },
        ) => path_eqv(p, q) && entries_eqv(ea, eb),
        _ => false,
    }
}

/// Element-wise structural equality of entry sequences.
pub open spec fn entries_eqv(a: Seq<MetaV>, b: Seq<MetaV>) -> bool
    decreases a,
{
    a.len() == b.len() && (a.len() == 0 || (entry_eqv(a[0], b[0]) && entries_eqv(
        a.subrange(1, a.len() as int),
        b.subrange(1, b.len() as int),
    )))
}

/// Equality of byte vectors, stated over their views.
pub fn bytes_eq(a: &Vec<u8>, b: &Vec<u8>) -> (r: bool)
    ensures
        r == (a@ == b@),
{
    if a.len() != b.len() {
        assert(a@ != b@);
        return false;
    }
    let mut i: usize = 0;
    while i < a.len()
        invariant
            i <= a.len(),
            a.len() == b.len(),
            forall|j: int| 0 <= j < i ==> a@[j] == b@[j],
        decreases a.len() - i,
    {
        if a[i] != b[i] {
            assert(a@ != b@);
            return false;
        }
        i = i + 1;
    }
    assert(a@ =~= b@);
    true
}

/// Equality of key paths, as `path_eqv`.
pub fn path_eq(a: &MetaPath, b: &MetaPath) -> (r: bool)
    ensures
        r == path_eqv(a@, b@),
{
    let ghost av = a@.segments;
    let ghost bv = b@.segments;
    if a.segments.len() != b.segments.len() {
        proof {
            assert(av.len() == a.segments@.len());
            assert(bv.len() == b.segments@.len());
            assert(av != bv);
        }
        return false;
    }
    let mut i: usize = 0;
    while i < a.segments.len()
        invariant
            i <= a.segments.len(),
            a.segments.len() == b.segments.len(),
            av == a@.segments,
            bv == b@.segments,
            av.len() == a.segments.len(),
            bv.len() == b.segments.len(),
            forall|j: int| 0 <= j < i ==> av[j] == bv[j],
        decreases a.segments.len() - i,
    {
        assert(av[i as int] == a.segments@[i as int]@);
        assert(bv[i as int] == b.segments@[i as int]@);
        if !str_eq(a.segments[i].as_str(), b.segments[i].as_str()) {
            assert(av[i as int] != bv[i as int]);
            assert(av != bv);
            return false;
        }
        i = i + 1;
    }
    assert(av =~= bv);
    true
}

/// Equality of literals, as `lit_eqv`.
pub fn lit_eq(a: &Lit, b: &Lit) -> (r: bool)
    ensures
        r == lit_eqv(a@, b@),
{
    match (a, b) {
        (Lit::Str { text: x, .. }, Lit::Str { text: y, .. }) => str_eq(x.as_str(), y.as_str()),
        (Lit::ByteStr { bytes: x, .. }, Lit::ByteStr { bytes: y, .. }) => bytes_eq(x, y),
        (Lit::Int { value: x, .. }, Lit::Int { value: y, .. }) => *x == *y,
        (Lit::Bool { value: x, .. }, Lit::Bool { value: y, .. }) => *x == *y,
        _ => false,
    }
}

/// Equality of metadata entries, as `entry_eqv`.
pub fn entry_eq(a: &MetaEntry, b: &MetaEntry) -> (r: bool)
    ensures
        r == entry_eqv(a@, b@),
    decreases *a,
{
    match a {
        MetaEntry::Path(p) => match b {
            MetaEntry::Path(q) => path_eq(p, q),
            _ => false,
        },
        MetaEntry::NameValue { path: p, lit: x } => match b {
            MetaEntry::NameValue { path: q, lit: y } => path_eq(p, q) && lit_eq(x, y),
            _ => false,
        },
        MetaEntry::List { path: p, entries: ea, span: _ } => match b {
            MetaEntry::List { path: q, entries: eb, span: _ } => {
            if !path_eq(p, q) {
                return false;
            }
            let ghost eav = entries_view(ea@);
            let ghost ebv = entries_view(eb@);
            proof {
                lemma_entries_view(ea@);
                lemma_entries_view(eb@);
            }
            if ea.len() != eb.len() {
                proof {
                    lemma_entries_eqv_pointwise(eav, ebv);
                }
                return false;
            }
            let mut i: usize = 0;
            while i < ea.len()
                invariant
                    a is List,
                    a->List_entries == *ea,
                    b is List,
                    b->List_entries == *eb,
                    i <= ea.len(),
                    ea.len() == eb.len(),
                    eav == entries_view(ea@),
                    ebv == entries_view(eb@),
                    eav.len() == ea.len(),
                    ebv.len() == eb.len(),
                    forall|j: int| 0 <= j < ea@.len() ==> eav[j] == entry_view(ea@[j]),
                    forall|j: int| 0 <= j < eb@.len() ==> ebv[j] == entry_view(eb@[j]),
                    forall|j: int| 0 <= j < i ==> entry_eqv(eav[j], ebv[j]),
                decreases ea.len() - i,
            {
                proof {
                    assert(a->List_entries == *ea);
                    assert(decreases_to!(*a => a->List_entries));
                    assert(decreases_to!(a->List_entries => a->List_entries[i as int]));
                    assert(decreases_to!(*a => ea@[i as int]));
                }
                if !entry_eq(&ea[i], &eb[i]) {
                    proof {
                        assert(eav[i as int] == entry_view(ea@[i as int]));
                        assert(!entry_eqv(eav[i as int], ebv[i as int]));
                        lemma_entries_eqv_pointwise(eav, ebv);
                        assert(!entries_eqv(eav, ebv));
                        assert(a@ matches MetaV::List { entries: ae, .. } && ae == eav);
                        assert(b@ matches MetaV::List { entries: be, .. } && be == ebv);
                        assert(!entry_eqv(a@, b@));
                    }
                    return false;
                }
                i = i + 1;
            }
            proof {
                lemma_entries_eqv_pointwise(eav, ebv);
            }
            true
            },
            _ => false,
        },
    }
}

/// `entries_eqv` holds exactly when the lengths match and the elements are
/// pairwise equal.
pub proof fn lemma_entries_eqv_pointwise(a: Seq<MetaV>, b: Seq<MetaV>)
    ensures
        entries_eqv(a, b) <==> (a.len() == b.len() && forall|i: int|
            0 <= i < a.len() ==> entry_eqv(a[i], b[i])),
    decreases a,
{
    if a.len() > 0 && a.len() == b.len() {
        let at = a.subrange(1, a.len() as int);
        let bt = b.subrange(1, b.len() as int);
        lemma_entries_eqv_pointwise(at, bt);
        assert forall|i: int| 0 <= i < at.len() implies at[i] == a[i + 1] && bt[i] == b[i + 1] by {}
        if entries_eqv(a, b) {
            assert forall|i: int| 0 <= i < a.len() implies entry_eqv(a[i], b[i]) by {
                if i > 0 {
                    assert(at[i - 1] == a[i]);
                    assert(bt[i - 1] == b[i]);
                }
            }
        }
        if a.len() == b.len() && forall|i: int| 0 <= i < a.len() ==> entry_eqv(a[i], b[i]) {
            assert forall|i: int| 0 <= i < at.len() implies entry_eqv(at[i], bt[i]) by {
                assert(at[i] == a[i + 1]);
                assert(bt[i] == b[i + 1]);
            }
        }
    }
}

/// A fresh byte vector with the same contents.
pub fn copy_bytes(a: &Vec<u8>) -> (r: Vec<u8>)
    ensures
        r@ == a@,
{
    let mut out: Vec<u8> = Vec::new();
    let mut i: usize = 0;
    while i < a.len()
        invariant
            i <= a.len(),
            out@ == a@.subrange(0, i as int),
        decreases a.len() - i,
    {
        out.push(a[i]);
        proof {
            assert(out@ =~= a@.subrange(0, i + 1));
        }
        i = i + 1;
    }
    proof {
        assert(out@ =~= a@);
    }
    out
}

/// A fresh identifier with the same model.
pub fn copy_ident(a: &Ident) -> (r: Ident)
    ensures
        r@ == a@,
{
    Ident { name: a.name.as_str().to_owned(), span: a.span }
}

/// A fresh key path with the same model.
pub fn copy_path(a: &MetaPath) -> (r: MetaPath)
    ensures
        r@ == a@,
{
    let mut segments: Vec<String> = Vec::new();
    let mut i: usize = 0;
    while i < a.segments.len()
        invariant
            i <= a.segments.len(),
            segments@.len() == i,
            forall|j: int| 0 <= j < i ==> segments@[j]@ == a.segments@[j]@,
        decreases a.segments.len() - i,
    {
        segments.push(a.segments[i].as_str().to_owned());
        i = i + 1;
    }
    let r = MetaPath { segments, span: a.span };
    proof {
        assert(r@.segments =~= a@.segments);
    }
    r
}

/// A fresh literal with the same model.
pub fn copy_lit(a: &Lit) -> (r: Lit)
    ensures
        r@ == a@,
{
    match a {
        Lit::Str { text, span } => Lit::Str { text: text.as_str().to_owned(), span: *span },
        Lit::ByteStr { bytes, span } => Lit::ByteStr { bytes: copy_bytes(bytes), span: *span },
        Lit::Int { value, span } => Lit::Int { value: *value, span: *span },
        Lit::Bool { value, span } => Lit::Bool { value: *value, span: *span },
    }
}

/// The character of a decimal digit.
pub open spec fn digit_char(d: int) -> char {
    ((48 + d) as u8) as char
}

/// The decimal spelling of a number, most significant digit first.
pub open spec fn dec_digits(n: int) -> Seq<char>
    decreases n,
{
    if n < 10 {
        seq![digit_char(n)]
    } else {
        dec_digits(n / 10).push(digit_char(n % 10))
    }
}

/// The character of a hexadecimal digit, lower case.
pub open spec fn hex_char(d: int) -> char {
    if d < 10 {
        digit_char(d)
    } else {
        ((87 + d) as u8) as char
    }
}

/// How one character of a string literal's payload is written back out:
/// quotes and backslashes get a backslash in front.
pub open spec fn escaped_char(c: char) -> Seq<char> {
    if c == '"' || c == '\\' {
        seq!['\\', c]
    } else {
        seq![c]
    }
}

/// A string payload written back out, character by character.
pub open spec fn escaped_text(s: Seq<char>) -> Seq<char>
    decreases s.len(),
{
    if s.len() == 0 {
        Seq::empty()
    } else {
        escaped_text(s.subrange(0, s.len() - 1)) + escaped_char(s[s.len() - 1])
    }
}

/// How one byte of a byte-string payload is written back out: printable
/// bytes as themselves, everything else as a hexadecimal escape.
pub open spec fn byte_text(b: u8) -> Seq<char> {
    if 32 <= b && b < 127 && b != 34 && b != 92 {
        seq![b as char]
    } else {
        seq!['\\', 'x', hex_char(b as int / 16), hex_char(b as int % 16)]
    }
}

/// A byte-string payload written back out, byte by byte.
pub open spec fn bytes_text(s: Seq<u8>) -> Seq<char>
    decreases s.len(),
{
    if s.len() == 0 {
        Seq::empty()
    } else {
        bytes_text(s.subrange(0, s.len() - 1)) + byte_text(s[s.len() - 1])
    }
}

/// The text of a literal as it stands in source.
pub open spec fn lit_text(l: LitV) -> Seq<char> {
    match l {
        LitV::Str { text, .. } => seq!['"'] + escaped_text(text) + seq!['"'],
        LitV::ByteStr { bytes, .. } => seq!['b', '"'] + bytes_text(bytes) + seq!['"'],
        LitV::Int { value, .. } => dec_digits(value as int),
        LitV::Bool { value, .. } => if value {
            "true"@
        } else {
            "false"@
        },
    }
}

/// Path segments joined with `::`.
pub open spec fn join_path(segs: Seq<Seq<char>>) -> Seq<char>
    decreases segs.len(),
{
    if segs.len() == 0 {
        Seq::empty()
    } else if segs.len() == 1 {
        segs[0]
    } else {
        join_path(segs.subrange(0, segs.len() - 1)) + "::"@ + segs[segs.len() - 1]
    }
}

/// The text of a metadata key.
pub open spec fn path_text(p: PathV) -> Seq<char> {
    join_path(p.segments)
}

/// The text of one metadata entry as it stands in source, positions left
/// out. Deduplication treats two entries with the same text as one.
pub open spec fn entry_text(m: MetaV) -> Seq<char>
    decreases m,
{
    match m {
        MetaV::Path(p) => path_text(p),
        MetaV::NameValue { path, lit } => path_text(path) + " = "@ + lit_text(lit),
        MetaV::List { path, entries, .. } => path_text(path) + seq!['('] + list_texts(entries)
            + seq![')'],
    }
}

/// The texts of the entries of a list, joined with `, `.
pub open spec fn list_texts(s: Seq<MetaV>) -> Seq<char>
    decreases s,
{
    if s.len() == 0 {
        Seq::empty()
    } else if s.len() == 1 {
        entry_text(s[0])
    } else {
        list_texts(s.subrange(0, s.len() - 1)) + ", "@ + entry_text(s[s.len() - 1])
    }
}

/// Appends the decimal spelling of `n`.
pub fn render_u64(n: u64, out: &mut String)
    ensures
        final(out)@ == old(out)@ + dec_digits(n as int),
    decreases n,
{
    if n < 10 {
        let d: u8 = 48 + (n as u8);
        push_char(out, d as char);
        assert(final(out)@ =~= old(out)@ + dec_digits(n as int));
    } else {
        render_u64(n / 10, out);
        let d: u8 = 48 + ((n % 10) as u8);
        push_char(out, d as char);
        assert(final(out)@ =~= old(out)@ + dec_digits(n as int));
    }
}

/// Appends a string payload in escaped form.
pub fn render_str_escaped(s: &str, out: &mut String)
    ensures
        final(out)@ == old(out)@ + escaped_text(s@),
{
    let n = s.unicode_len();
    let mut i: usize = 0;
    while i < n
        invariant
            i <= n,
            n == s@.len(),
            out@ == old(out)@ + escaped_text(s@.subrange(0, i as int)),
        decreases n - i,
    {
        let c = s.get_char(i);
        if c == '"' || c == '\\' {
            push_char(out, '\\');
            push_char(out, c);
        } else {
            push_char(out, c);
        }
        proof {
            let t = s@.subrange(0, i + 1);
            assert(t.subrange(0, i as int) =~= s@.subrange(0, i as int));
            assert(t[i as int] == s@[i as int]);
            assert(out@ =~= old(out)@ + escaped_text(t));
        }
        i = i + 1;
    }
    assert(s@.subrange(0, n as int) =~= s@);
}

/// The character of a hexadecimal digit.
fn hex_digit(d: u8) -> (c: char)
    requires
        d < 16,
    ensures
        c == hex_char(d as int),
{
    if d < 10 {
        let x: u8 = 48 + d;
        x as char
    } else {
        let x: u8 = 87 + d;
        x as char
    }
}

/// Appends a byte-string payload in escaped form.
pub fn render_bytes(bs: &Vec<u8>, out: &mut String)
    ensures
        final(out)@ == old(out)@ + bytes_text(bs@),
{
    let n = bs.len();
    let mut i: usize = 0;
    while i < n
        invariant
            i <= n,
            n == bs@.len(),
            out@ == old(out)@ + bytes_text(bs@.subrange(0, i as int)),
        decreases n - i,
    {
        let b = bs[i];
        if 32 <= b && b < 127 && b != 34 && b != 92 {
            push_char(out, b as char);
        } else {
            push_char(out, '\\');
            push_char(out, 'x');
            push_char(out, hex_digit(b / 16));
            push_char(out, hex_digit(b % 16));
        }
        proof {
            let t = bs@.subrange(0, i + 1);
            assert(t.subrange(0, i as int) =~= bs@.subrange(0, i as int));
            assert(t[i as int] == bs@[i as int]);
            assert(out@ =~= old(out)@ + bytes_text(t));
        }
        i = i + 1;
    }
    assert(bs@.subrange(0, n as int) =~= bs@);
}

/// Appends the text of a metadata key.
pub fn render_path(p: &MetaPath, out: &mut String)
    ensures
        final(out)@ == old(out)@ + path_text(p@),
{
    let ghost segs = p@.segments;
    let n = p.segments.len();
    let mut i: usize = 0;
    while i < n
        invariant
            i <= n,
            n == p.segments@.len(),
            segs == p@.segments,
            segs.len() == n,
            forall|j: int| 0 <= j < n ==> segs[j] == p.segments@[j]@,
            out@ == old(out)@ + join_path(segs.subrange(0, i as int)),
        decreases n - i,
    {
        if i > 0 {
            out.append("::");
        }
        out.append(p.segments[i].as_str());
        proof {
            let t = segs.subrange(0, i + 1);
            assert(t.subrange(0, i as int) =~= segs.subrange(0, i as int));
            assert(t[i as int] == segs[i as int]);
            assert(out@ =~= old(out)@ + join_path(t));
        }
        i = i + 1;
    }
    assert(segs.subrange(0, n as int) =~= segs);
}

/// Appends the text of a literal.
pub fn render_lit(l: &Lit, out: &mut String)
    ensures
        final(out)@ == old(out)@ + lit_text(l@),
{
    match l {
        Lit::Str { text, .. } => {
            push_char(out, '"');
            render_str_escaped(text.as_str(), out);
            push_char(out, '"');
            assert(final(out)@ =~= old(out)@ + lit_text(l@));
        },
        Lit::ByteStr { bytes, .. } => {
            push_char(out, 'b');
            push_char(out, '"');
            render_bytes(bytes, out);
            push_char(out, '"');
            assert(final(out)@ =~= old(out)@ + lit_text(l@));
        },
        Lit::Int { value, .. } => {
            render_u64(*value, out);
        },
        Lit::Bool { value, .. } => {
            if *value {
                out.append("true");
            } else {
                out.append("false");
            }
        },
    }
}

/// One step of `list_texts`, for the loop that renders a list.
pub proof fn lemma_list_texts_step(s: Seq<MetaV>, i: int)
    requires
        0 <= i < s.len(),
    ensures
        list_texts(s.subrange(0, i + 1)) == if i == 0 {
            entry_text(s[0])
        } else {
            list_texts(s.subrange(0, i)) + ", "@ + entry_text(s[i])
        },
{
    let t = s.subrange(0, i + 1);
    assert(t.subrange(0, i) =~= s.subrange(0, i));
    assert(t[i] == s[i]);
    if i == 0 {
        assert(list_texts(t) == entry_text(t[0]));
    }
}

/// Appends the text of one metadata entry, descending into nested lists.
pub fn render_entry_into(e: &MetaEntry, out: &mut String)
    ensures
        final(out)@ == old(out)@ + entry_text(e@),
    decreases *e,
{
    match e {
        MetaEntry::Path(p) => {
            render_path(p, out);
        },
        MetaEntry::NameValue { path, lit } => {
            render_path(path, out);
            out.append(" = ");
            render_lit(lit, out);
            assert(final(out)@ =~= old(out)@ + entry_text(e@));
        },
        MetaEntry::List { path, entries, span: _ } => {
            render_path(path, out);
            push_char(out, '(');
            let ghost evs = entries_view(entries@);
            proof {
                lemma_entries_view(entries@);
            }
            let ghost base = out@;
            let n = entries.len();
            let mut i: usize = 0;
            while i < n
                invariant
                    e is List,
                    e->List_entries == *entries,
                    i <= n,
                    n == entries@.len(),
                    evs == entries_view(entries@),
                    evs.len() == n,
                    forall|j: int| 0 <= j < n ==> evs[j] == entry_view(entries@[j]),
                    out@ == base + list_texts(evs.subrange(0, i as int)),
                decreases n - i,
            {
                if i > 0 {
                    out.append(", ");
                }
                proof {
                    assert(decreases_to!(*e => e->List_entries));
                    assert(decreases_to!(e->List_entries => e->List_entries[i as int]));
                    assert(decreases_to!(*e => entries@[i as int]));
                }
                render_entry_into(&entries[i], out);
                proof {
                    lemma_list_texts_step(evs, i as int);
                    assert(out@ =~= base + list_texts(evs.subrange(0, i + 1)));
                }
                i = i + 1;
            }
            push_char(out, ')');
            proof {
                assert(evs.subrange(0, n as int) =~= evs);
                assert(final(out)@ =~= old(out)@ + entry_text(e@));
            }
        },
    }
}

/// The text of one metadata entry.
pub fn render_entry(e: &MetaEntry) -> (s: String)
    ensures
        s@ == entry_text(e@),
{
    let mut out = String::new();
    render_entry_into(e, &mut out);
    assert(out@ =~= entry_text(e@));
    out
}

} // verus!
