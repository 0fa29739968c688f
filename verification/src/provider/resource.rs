//! The name of a collection of records, as a path segment.

use vstd::prelude::*;
use crate::text::{
    has_outer_whitespace, lemma_trim_end_shape, lemma_trim_start_shape, lemma_trimmed_fixed, trim,
    trim_start, trimmed,
};

verus! {

/// `s` without one leading and without one trailing slash. Slashes further
/// in stay.
pub open spec fn strip_slashes(s: Seq<char>) -> Seq<char> {
    let rest = if s.len() > 0 && s[0] == '/' {
        s.skip(1)
    } else {
        s
    };
    if rest.len() > 0 && rest.last() == '/' {
        rest.drop_last()
    } else {
        rest
    }
}

/// The normal form of a resource name: the name without the white space
/// around it, then without one leading and one trailing slash.
pub open spec fn normalized(s: Seq<char>) -> Seq<char> {
    strip_slashes(trimmed(s))
}

/// Whether `s` neither begins nor ends with a slash or with white space.
pub open spec fn is_canonical(s: Seq<char>) -> bool {
    &&& !has_outer_whitespace(s)
    &&& s.len() > 0 ==> s[0] != '/' && s.last() != '/'
}

/// A name that is in normal form already is its own normal form.
pub proof fn lemma_normalized_fixed(s: Seq<char>)
    requires
        is_canonical(s),
    ensures
        normalized(s) == s,
{
    lemma_trimmed_fixed(s);
}

/// Normalising twice gives what normalising once gives, wherever the first
/// pass left neither a slash nor white space at an end.
pub proof fn lemma_normalized_idempotent(s: Seq<char>)
    requires
        is_canonical(normalized(s)),
    ensures
        normalized(normalized(s)) == normalized(s),
{
    lemma_normalized_fixed(normalized(s));
}

/// A second pass changes a name exactly where the first pass left a slash or
/// white space at an end.
pub proof fn lemma_normalized_again(s: Seq<char>)
    ensures
        normalized(normalized(s)) == normalized(s) <==> is_canonical(normalized(s)),
{
    let t = normalized(s);
    if is_canonical(t) {
        lemma_normalized_fixed(t);
    } else {
        lemma_trim_start_shape(t);
        lemma_trim_end_shape(trim_start(t));
        if has_outer_whitespace(t) {
            assert(trimmed(t).len() < t.len());
        } else {
            lemma_trimmed_fixed(t);
        }
        assert(normalized(t).len() < t.len());
    }
}

/// The normal form is one piece of the name: what is stripped is stripped
/// at the ends, and every slash further in stays where it was.
pub proof fn lemma_normalized_is_part(s: Seq<char>)
    ensures
        exists|from: int, to: int|
            0 <= from <= to <= s.len() && normalized(s) == #[trigger] s.subrange(from, to),
{
    let front = trim_start(s);
    let t = trimmed(s);
    lemma_trim_start_shape(s);
    lemma_trim_end_shape(front);
    let a = s.len() - front.len();
    let b = a + t.len();
    assert(t =~= s.subrange(a, b));
    let from = if t.len() > 0 && t[0] == '/' {
        a + 1
    } else {
        a
    };
    let rest = if t.len() > 0 && t[0] == '/' {
        t.skip(1)
    } else {
        t
    };
    let to = if rest.len() > 0 && rest.last() == '/' {
        b - 1
    } else {
        b
    };
    assert(normalized(s) =~= s.subrange(from, to));
}

/// A named collection of records on the backend.
#[derive(Clone, Debug, PartialEq)]
pub struct Resource {
    /// The name in normal form.
    pub resource: String,
}

impl Resource {
    /// The resource that `res` names: `res` in normal form.
    pub fn new(res: &str) -> (r: Self)
        ensures
            r.resource@ == normalized(res@),
    {
        Resource::from_trimmed(trim(res))
    }

    /// The resource that a name without white space around it names: the
    /// name without one leading and without one trailing slash.
    pub fn from_trimmed(name: &str) -> (r: Self)
        ensures
            r.resource@ == strip_slashes(name@),
    {
        let n: usize = name.unicode_len();
        let from: usize = if n > 0 && name.get_char(0) == '/' {
            1
        } else {
            0
        };
        let to: usize = if n > from && name.get_char(n - 1) == '/' {
            n - 1
        } else {
            n
        };
        proof {
            let rest = if from == 1 {
                name@.skip(1)
            } else {
                name@
            };
            assert(rest =~= name@.subrange(from as int, n as int));
            assert(strip_slashes(name@) =~= name@.subrange(from as int, to as int));
        }
        Resource { resource: String::from_str(name.substring_char(from, to)) }
    }
}

} // verus!
