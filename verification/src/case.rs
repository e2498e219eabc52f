use vstd::prelude::*;
use vstd::string::StringExecFns;
use crate::span::{Diag, DiagKind, Span};
use crate::text::str_eq;

verus! {

/// The closed set of naming-convention rules a rename directive can name.
/// A value exists only for one of the five canonical spellings; parsing any
/// other spelling fails with a diagnostic, so no partial or invalid rule is
/// ever constructed.
#[derive(Clone, Copy, Debug, Hash, PartialEq, Eq, Structural)]
pub enum RenameRule {
    Upper,
    Lower,
    Pascal,
    Snake,
    Scream,
}

/// The canonical spelling of a rule.
pub open spec fn rule_text(r: RenameRule) -> Seq<char> {
    match r {
        RenameRule::Upper => "UPPERCASE"@,
        RenameRule::Lower => "lowercase"@,
        RenameRule::Pascal => "PascalCase"@,
        RenameRule::Snake => "snake_case"@,
        RenameRule::Scream => "SCREAMING_SNAKE_CASE"@,
    }
}

/// The message of an invalid-case-rule diagnostic: it quotes the offending
/// spelling and lists every valid spelling for the user's guidance.
pub open spec fn invalid_rule_text(s: Seq<char>) -> Seq<char> {
    "invalid rename attribute: "@ + s
        + ", expected one of UPPERCASE | lowercase | PascalCase | snake_case | SCREAMING_SNAKE_CASE"@
}

/// The rule a spelling names, if it is one of the five canonical spellings.
pub open spec fn rule_of_text(s: Seq<char>) -> Option<RenameRule> {
    if s == "UPPERCASE"@ {
        Some(RenameRule::Upper)
    } else if s == "lowercase"@ {
        Some(RenameRule::Lower)
    } else if s == "PascalCase"@ {
        Some(RenameRule::Pascal)
    } else if s == "snake_case"@ {
        Some(RenameRule::Snake)
    } else if s == "SCREAMING_SNAKE_CASE"@ {
        Some(RenameRule::Scream)
    } else {
        None
    }
}

/// The five canonical spellings have pairwise distinct views: each starts
/// with a different character.
proof fn lemma_spellings_distinct()
    ensures
        "UPPERCASE"@ != "lowercase"@,
        "UPPERCASE"@ != "PascalCase"@,
        "UPPERCASE"@ != "snake_case"@,
        "UPPERCASE"@ != "SCREAMING_SNAKE_CASE"@,
        "lowercase"@ != "PascalCase"@,
        "lowercase"@ != "snake_case"@,
        "lowercase"@ != "SCREAMING_SNAKE_CASE"@,
        "PascalCase"@ != "snake_case"@,
        "PascalCase"@ != "SCREAMING_SNAKE_CASE"@,
        "snake_case"@ != "SCREAMING_SNAKE_CASE"@,
{
    reveal_strlit("UPPERCASE");
    reveal_strlit("lowercase");
    reveal_strlit("PascalCase");
    reveal_strlit("snake_case");
    reveal_strlit("SCREAMING_SNAKE_CASE");
    assert("UPPERCASE"@[0] == 'U');
    assert("lowercase"@[0] == 'l');
    assert("PascalCase"@[0] == 'P');
    assert("snake_case"@[0] == 's');
    assert("SCREAMING_SNAKE_CASE"@[0] == 'S');
}

/// Round trip, one direction: rendering a rule and parsing the spelling back
/// yields the same rule, for every rule.
pub proof fn lemma_rule_round_trip(r: RenameRule)
    ensures
        rule_of_text(rule_text(r)) == Some(r),
{
    lemma_spellings_distinct();
}

/// Round trip, other direction: every spelling that parses renders back to
/// itself, so `render(parse(s)) == s` for each canonical spelling `s`.
pub proof fn lemma_text_round_trip(s: Seq<char>, r: RenameRule)
    requires
        rule_of_text(s) == Some(r),
    ensures
        rule_text(r) == s,
{
    lemma_spellings_distinct();
}

impl RenameRule {
    /// Parses a spelling into a rule. Exactly the five canonical spellings
    /// are accepted; anything else fails with `InvalidCaseRule`, and the
    /// message lists every valid spelling for the user's guidance.
    pub fn from_str(s: &str) -> (r: Result<RenameRule, Diag>)
        ensures
            match r {
                Ok(rule) => rule_of_text(s@) == Some(rule),
                Err(d) => rule_of_text(s@) is None && d.kind == DiagKind::InvalidCaseRule
                    && d.msg@ == invalid_rule_text(s@),
            },
    {
        if str_eq(s, "UPPERCASE") {
            Ok(RenameRule::Upper)
        } else if str_eq(s, "lowercase") {
            Ok(RenameRule::Lower)
        } else if str_eq(s, "PascalCase") {
            Ok(RenameRule::Pascal)
        } else if str_eq(s, "snake_case") {
            Ok(RenameRule::Snake)
        } else if str_eq(s, "SCREAMING_SNAKE_CASE") {
            Ok(RenameRule::Scream)
        } else {
            let mut msg = String::new();
            msg.append("invalid rename attribute: ");
            msg.append(s);
            msg.append(
                ", expected one of UPPERCASE | lowercase | PascalCase | snake_case | SCREAMING_SNAKE_CASE",
            );
            proof {
                assert(msg@ =~= invalid_rule_text(s@));
            }
            Err(Diag { kind: DiagKind::InvalidCaseRule, span: Span::call_site(), msg })
        }
    }

    /// Renders a rule back to its canonical spelling: total, pure, and the
    /// exact inverse of `from_str` on canonical inputs.
    pub fn render(&self) -> (t: &'static str)
        ensures
            t@ == rule_text(*self),
    {
        match self {
            RenameRule::Upper => "UPPERCASE",
            RenameRule::Lower => "lowercase",
            RenameRule::Pascal => "PascalCase",
            RenameRule::Snake => "snake_case",
            RenameRule::Scream => "SCREAMING_SNAKE_CASE",
        }
    }
}

} // verus!
