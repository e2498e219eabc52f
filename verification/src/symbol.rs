use vstd::prelude::*;
use crate::meta::{MetaPath, PathV};
use crate::text::str_eq;

verus! {

/// An interned metadata key: one of the compile-time string constants the
/// tool recognizes. Pure data; no behavior beyond equality comparison
/// against parsed words and paths.
#[derive(Debug)]
pub struct Symbol {
    pub text: String,
}

impl Symbol {
    /// Interns a key string.
    pub fn new(text: &str) -> (s: Symbol)
        ensures
            s.text@ == text@,
    {
        Symbol { text: text.to_owned() }
    }

    /// Equality against a parsed word.
    pub fn eq(&self, word: &str) -> (r: bool)
        ensures
            r == (self.text@ == word@),
    {
        str_eq(self.text.as_str(), word)
    }

    /// The key as a string slice.
    pub fn as_ref(&self) -> (r: &str)
        ensures
            r@ == self.text@,
    {
        self.text.as_str()
    }
}

/// Whether a key path is exactly the given one-segment word.
pub open spec fn path_is_word(p: PathV, w: Seq<char>) -> bool {
    p.segments.len() == 1 && p.segments[0] == w
}

/// Equality of a parsed key path against a symbol, as `path_is_word`.
pub fn path_is(p: &MetaPath, sym: &Symbol) -> (r: bool)
    ensures
        r == path_is_word(p@, sym.text@),
{
    if p.segments.len() != 1 {
        return false;
    }
    proof {
        assert(p@.segments[0] == p.segments@[0]@);
    }
    str_eq(p.segments[0].as_str(), sym.text.as_str())
}

/// The reserved namespace: only attributes under this key are the tool's own.
pub fn sym_id() -> (s: Symbol)
    ensures
        s.text@ == "enum_repr"@,
{
    Symbol::new("enum_repr")
}

/// The `default` key.
pub fn sym_default() -> (s: Symbol)
    ensures
        s.text@ == "default"@,
{
    Symbol::new("default")
}

/// The `rename_all` key.
pub fn sym_rename_all() -> (s: Symbol)
    ensures
        s.text@ == "rename_all"@,
{
    Symbol::new("rename_all")
}

/// The `rename` key.
pub fn sym_rename() -> (s: Symbol)
    ensures
        s.text@ == "rename"@,
{
    Symbol::new("rename")
}

/// The `repr` key.
pub fn sym_repr() -> (s: Symbol)
    ensures
        s.text@ == "repr"@,
{
    Symbol::new("repr")
}

/// The `from` key.
pub fn sym_from() -> (s: Symbol)
    ensures
        s.text@ == "from"@,
{
    Symbol::new("from")
}

/// The `into` key.
pub fn sym_into() -> (s: Symbol)
    ensures
        s.text@ == "into"@,
{
    Symbol::new("into")
}

/// The `try_from` key.
pub fn sym_try_from() -> (s: Symbol)
    ensures
        s.text@ == "try_from"@,
{
    Symbol::new("try_from")
}

/// The `attr` key.
pub fn sym_attr() -> (s: Symbol)
    ensures
        s.text@ == "attr"@,
{
    Symbol::new("attr")
}

/// The `attr_nest` key.
pub fn sym_attr_nest() -> (s: Symbol)
    ensures
        s.text@ == "attr_nest"@,
{
    Symbol::new("attr_nest")
}

/// The `other` key.
pub fn sym_other() -> (s: Symbol)
    ensures
        s.text@ == "other"@,
{
    Symbol::new("other")
}

/// The `discr` key.
pub fn sym_discr() -> (s: Symbol)
    ensures
        s.text@ == "discr"@,
{
    Symbol::new("discr")
}

} // verus!
