use vstd::prelude::*;
use crate::text::chars_eq;

verus! {

/// The case convention used to spell field and variant names.
#[derive(Clone, Copy, Debug, PartialEq, Eq, Structural, Hash)]
pub enum Casing {
    Original,
    CamelCase,
    PascalCase,
    SnakeCase,
    ScreamingSnakeCase,
}

/// What `inflector::cases::camelcase::to_camel_case` makes of a string.
pub uninterp spec fn camel_case_of(s: Seq<char>) -> Seq<char>;

/// What `inflector::cases::pascalcase::to_pascal_case` makes of a string.
pub uninterp spec fn pascal_case_of(s: Seq<char>) -> Seq<char>;

/// What `inflector::cases::snakecase::to_snake_case` makes of a string.
pub uninterp spec fn snake_case_of(s: Seq<char>) -> Seq<char>;

/// What `inflector::cases::screamingsnakecase::to_screaming_snake_case`
/// makes of a string.
pub uninterp spec fn screaming_snake_case_of(s: Seq<char>) -> Seq<char>;

/// Calls `inflector::cases::camelcase::to_camel_case`, a function of its
/// argument alone: the result is named, nothing more is claimed of it.
#[verifier::external_body]
pub(crate) fn to_camel_case(s: &str) -> (res: String)
    ensures
        res@ == camel_case_of(s@),
{
    inflector::cases::camelcase::to_camel_case(s)
}

/// Calls `inflector::cases::pascalcase::to_pascal_case`, a function of its
/// argument alone: the result is named, nothing more is claimed of it.
#[verifier::external_body]
fn to_pascal_case(s: &str) -> (res: String)
    ensures
        res@ == pascal_case_of(s@),
{
    inflector::cases::pascalcase::to_pascal_case(s)
}

/// Calls `inflector::cases::snakecase::to_snake_case`, a function of its
/// argument alone: the result is named, nothing more is claimed of it.
#[verifier::external_body]
fn to_snake_case(s: &str) -> (res: String)
    ensures
        res@ == snake_case_of(s@),
{
    inflector::cases::snakecase::to_snake_case(s)
}

/// Calls `inflector::cases::screamingsnakecase::to_screaming_snake_case`, a
/// function of its argument alone: the result is named, nothing more is
/// claimed of it.
#[verifier::external_body]
fn to_screaming_snake_case(s: &str) -> (res: String)
    ensures
        res@ == screaming_snake_case_of(s@),
{
    inflector::cases::screamingsnakecase::to_screaming_snake_case(s)
}

/// The Serde name of a casing, if it is not the original one.
pub open spec fn casing_name(c: Casing) -> Option<Seq<char>> {
    match c {
        Casing::Original => None,
        Casing::CamelCase => Some("camelCase"@),
        Casing::PascalCase => Some("PascalCase"@),
        Casing::SnakeCase => Some("snake_case"@),
        Casing::ScreamingSnakeCase => Some("SCREAMING_SNAKE_CASE"@),
    }
}

/// `s` spelled in the casing `c`.
pub open spec fn cased(c: Casing, s: Seq<char>) -> Seq<char> {
    match c {
        Casing::Original => s,
        Casing::CamelCase => camel_case_of(s),
        Casing::PascalCase => pascal_case_of(s),
        Casing::SnakeCase => snake_case_of(s),
        Casing::ScreamingSnakeCase => screaming_snake_case_of(s),
    }
}

/// The casing a Serde name stands for, if any.
pub open spec fn casing_from_name(s: Seq<char>) -> Option<Casing> {
    if s == "camelCase"@ {
        Some(Casing::CamelCase)
    } else if s == "PascalCase"@ {
        Some(Casing::PascalCase)
    } else if s == "snake_case"@ {
        Some(Casing::SnakeCase)
    } else if s == "SCREAMING_SNAKE_CASE"@ {
        Some(Casing::ScreamingSnakeCase)
    } else {
        None
    }
}

impl Casing {
    /// The Serde name of the casing; none for the original casing.
    pub fn as_maybe_str(&self) -> (res: Option<&'static str>)
        ensures
            match casing_name(*self) {
                Some(n) => res matches Some(s) && s@ == n,
                None => res is None,
            },
    {
        match self {
            Casing::Original => None,
            Casing::CamelCase => Some("camelCase"),
            Casing::PascalCase => Some("PascalCase"),
            Casing::SnakeCase => Some("snake_case"),
            Casing::ScreamingSnakeCase => Some("SCREAMING_SNAKE_CASE"),
        }
    }

    /// `string` spelled in this casing.
    pub fn format_string(&self, string: &str) -> (res: String)
        ensures
            res@ == cased(*self, string@),
    {
        match self {
            Casing::Original => string.to_owned(),
            Casing::CamelCase => to_camel_case(string),
            Casing::PascalCase => to_pascal_case(string),
            Casing::SnakeCase => to_snake_case(string),
            Casing::ScreamingSnakeCase => to_screaming_snake_case(string),
        }
    }

    /// The casing that is used when none is asked for.
    pub fn default() -> (res: Casing)
        ensures
            res == Casing::Original,
    {
        Casing::Original
    }

    /// The casing a Serde name stands for, or the message with which the
    /// name is refused.
    pub fn try_from(value: &str) -> (res: Result<Casing, String>)
        ensures
            match casing_from_name(value@) {
                Some(c) => res == Ok::<Casing, String>(c),
                None => res matches Err(e) && e@ == "Unrecognized case format: "@ + value@,
            },
    {
        let v = crate::text::chars_of(value);
        if chars_eq(&v, "camelCase") {
            Ok(Casing::CamelCase)
        } else if chars_eq(&v, "PascalCase") {
            Ok(Casing::PascalCase)
        } else if chars_eq(&v, "snake_case") {
            Ok(Casing::SnakeCase)
        } else if chars_eq(&v, "SCREAMING_SNAKE_CASE") {
            Ok(Casing::ScreamingSnakeCase)
        } else {
            let mut msg = "Unrecognized case format: ".to_owned();
            msg.append(value);
            Err(msg)
        }
    }
}

/// Every casing's Serde name reads back as that casing.
pub proof fn lemma_casing_name_round_trip(c: Casing)
    requires
        c != Casing::Original,
    ensures
        casing_from_name(casing_name(c).unwrap()) == Some(c),
{
    reveal_strlit("camelCase");
    reveal_strlit("PascalCase");
    reveal_strlit("snake_case");
    reveal_strlit("SCREAMING_SNAKE_CASE");
    match c {
        Casing::PascalCase => {
            assert("PascalCase"@[0] != "camelCase"@[0]);
        },
        Casing::SnakeCase => {
            assert("snake_case"@[0] != "camelCase"@[0]);
            assert("snake_case"@[0] != "PascalCase"@[0]);
        },
        Casing::ScreamingSnakeCase => {
            assert("SCREAMING_SNAKE_CASE"@.len() != "camelCase"@.len());
            assert("SCREAMING_SNAKE_CASE"@.len() != "PascalCase"@.len());
            assert("SCREAMING_SNAKE_CASE"@.len() != "snake_case"@.len());
        },
        _ => {},
    }
}

} // verus!
