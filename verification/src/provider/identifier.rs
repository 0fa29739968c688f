//! The value that names one record: a text or a non-negative integer.

use vstd::prelude::*;
use crate::json::{JsonNumber, JsonValue};
use crate::text::{decimal, decimal_text, lemma_decimal_injective};

verus! {

/// An identifier is either a text or a non-negative integer. The two kinds
/// are never turned into one another.
#[derive(Debug, PartialEq, Eq, Hash)]
pub enum Identifier {
    Str(String),
    Num(usize),
}

/// The identifier that a JSON value holds: a string gives a text identifier,
/// an integer that is not negative and that `usize` can hold gives a numeric
/// one, and nothing else is an identifier.
pub open spec fn identifier_of(value: JsonValue) -> Option<Identifier> {
    match value {
        JsonValue::String(s) => Some(Identifier::Str(s)),
        JsonValue::Number(JsonNumber::PosInt(n)) => if n <= usize::MAX {
            Some(Identifier::Num(n as usize))
        } else {
            None
        },
        _ => None,
    }
}

impl Identifier {
    /// The text by which the identifier stands in a path: a text identifier
    /// as it is, a numeric one as its decimal numeral.
    pub open spec fn text(self) -> Seq<char> {
        match self {
            Identifier::Str(s) => s@,
            Identifier::Num(n) => decimal(n as nat),
        }
    }

    /// Writes the identifier as text.
    pub fn to_text(&self) -> (s: String)
        ensures
            s@ == self.text(),
    {
        match self {
            Identifier::Str(s) => s.clone(),
            Identifier::Num(n) => decimal_text(*n),
        }
    }

    /// Reads an identifier from a JSON value.
    pub fn from_json(value: &JsonValue) -> (res: Option<Identifier>)
        ensures
            res == identifier_of(*value),
    {
        match value {
            JsonValue::String(s) => Some(Identifier::Str(s.clone())),
            JsonValue::Number(JsonNumber::PosInt(n)) => {
                if *n <= usize::MAX as u64 {
                    Some(Identifier::Num(*n as usize))
                } else {
                    None
                }
            },
            _ => None,
        }
    }

    /// Two identifiers of one kind that are written alike are the same
    /// identifier: the text loses nothing of either kind.
    pub proof fn lemma_text_lossless(a: Identifier, b: Identifier)
        requires
            a is Str <==> b is Str,
            a.text() == b.text(),
        ensures
            a is Str ==> a->Str_0@ == b->Str_0@,
            a is Num ==> a == b,
    {
        if a is Num {
            lemma_decimal_injective(a->Num_0 as nat, b->Num_0 as nat);
        }
    }
}

impl Clone for Identifier {
    fn clone(&self) -> (copy: Self)
        ensures
            copy == *self,
    {
        match self {
            Identifier::Str(s) => Identifier::Str(s.clone()),
            Identifier::Num(n) => Identifier::Num(*n),
        }
    }
}

impl From<String> for Identifier {
    fn from(value: String) -> (id: Self) {
        Identifier::Str(value)
    }
}

impl vstd::std_specs::convert::FromSpecImpl<String> for Identifier {
    open spec fn obeys_from_spec() -> bool {
        true
    }

    open spec fn from_spec(value: String) -> Self {
        Identifier::Str(value)
    }
}

impl From<usize> for Identifier {
    fn from(value: usize) -> (id: Self) {
        Identifier::Num(value)
    }
}

impl vstd::std_specs::convert::FromSpecImpl<usize> for Identifier {
    open spec fn obeys_from_spec() -> bool {
        true
    }

    open spec fn from_spec(value: usize) -> Self {
        Identifier::Num(value)
    }
}

impl From<Identifier> for String {
    fn from(identifier: Identifier) -> (s: String)
        ensures
            s@ == identifier.text(),
    {
        match identifier {
            Identifier::Str(s) => s,
            Identifier::Num(n) => decimal_text(n),
        }
    }
}

impl vstd::std_specs::convert::FromSpecImpl<Identifier> for String {
    open spec fn obeys_from_spec() -> bool {
        false
    }

    open spec fn from_spec(identifier: Identifier) -> Self {
        arbitrary()
    }
}

} // verus!
