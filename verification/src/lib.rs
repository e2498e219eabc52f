//! Compile-time metadata interpretation for annotated enumerations.
//!
//! The crate takes a declarative model of an enumeration together with the
//! structured metadata attached to it, validates that metadata against a
//! closed set of recognized options, and assembles a frozen intermediate
//! representation ready for code emission. A second, independent grammar
//! parses a shorthand enum-declaration notation and lowers it into the
//! attributed form.

pub mod bucket;
pub mod case;
pub mod extract;
pub mod ir;
pub mod macro_enum;
pub mod meta;
pub mod reinterpret;
pub mod span;
pub mod symbol;
pub mod text;
pub mod token;
