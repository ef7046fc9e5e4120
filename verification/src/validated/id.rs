//! A validated source identifier, shared by metrics ids and feature flag
//! keys.

use vstd::prelude::*;

use crate::error::{refused, Error, ErrorView};
use crate::text::chars_of;

verus! {

/// The pattern of an id, for readers.
pub const PATTERN_STR: &'static str = "^[a-z0-9_]+$";

/// Whether an id may hold the character.
pub open spec fn is_id_char(c: char) -> bool {
    'a' <= c <= 'z' || '0' <= c <= '9' || c == '_'
}

/// Whether the text is an id: not empty, of lower-case letters, digits and
/// underscores.
pub open spec fn is_id(s: Seq<char>) -> bool {
    s.len() > 0 && forall|i: int| 0 <= i < s.len() ==> is_id_char(#[trigger] s[i])
}

/// The error for a text that is no id.
pub open spec fn no_id() -> ErrorView {
    refused("id"@, "must match pattern [a-z0-9_]+"@)
}

/// Returns whether `value` matches the pattern.
fn matches_pattern(value: &str) -> (r: bool)
    ensures
        r == is_id(value@),
{
    let chars = chars_of(value);
    let mut i: usize = 0;
    while i < chars.len()
        invariant
            i <= chars@.len(),
            chars@ == value@,
            forall|j: int| 0 <= j < i ==> is_id_char(#[trigger] value@[j]),
        decreases chars@.len() - i,
    {
        let c = chars[i];
        if !('a' <= c && c <= 'z' || '0' <= c && c <= '9' || c == '_') {
            assert(!is_id_char(value@[i as int]));
            return false;
        }
        i += 1;
    }
    chars.len() > 0
}

/// A validated source identifier (metrics id or feature flag key).
#[derive(Debug, Eq, PartialOrd, Ord, Hash)]
pub struct Id(String);

impl View for Id {
    type V = Seq<char>;

    closed spec fn view(&self) -> Seq<char> {
        self.0@
    }
}

impl Id {
    #[verifier::type_invariant]
    spec fn well_formed(self) -> bool {
        is_id(self.0@)
    }

    /// Validates and wraps an id string.
    pub fn new(value: &str) -> (r: Result<Self, Error>)
        ensures
            match r {
                Ok(id) => is_id(value@) && id@ == value@,
                Err(e) => !is_id(value@) && e@ == no_id(),
            },
    {
        if matches_pattern(value) {
            Ok(Id(value.to_owned()))
        } else {
            Err(Error::validation("id", "must match pattern [a-z0-9_]+"))
        }
    }

    /// Borrows the id as a string slice.
    pub fn as_str(&self) -> (s: &str)
        ensures
            s@ == self@,
            is_id(s@),
    {
        proof {
            use_type_invariant(self);
        }
        self.0.as_str()
    }
}

impl Clone for Id {
    fn clone(&self) -> (r: Self)
        ensures
            r@ == self@,
    {
        proof {
            use_type_invariant(self);
        }
        Id(self.0.clone())
    }
}

impl PartialEq for Id {
    fn eq(&self, other: &Self) -> (r: bool) {
        self.0 == other.0
    }
}

impl vstd::std_specs::cmp::PartialEqSpecImpl for Id {
    open spec fn obeys_eq_spec() -> bool {
        true
    }

    open spec fn eq_spec(&self, other: &Self) -> bool {
        self@ == other@
    }
}

impl TryFrom<String> for Id {
    type Error = Error;

    fn try_from(value: String) -> (r: Result<Self, Error>)
        ensures
            match r {
                Ok(id) => is_id(value@) && id@ == value@,
                Err(e) => !is_id(value@) && e@ == no_id(),
            },
    {
        Id::new(value.as_str())
    }
}

impl vstd::std_specs::convert::TryFromSpecImpl<String> for Id {
    open spec fn obeys_try_from_spec() -> bool {
        false
    }

    open spec fn try_from_spec(v: String) -> Result<Self, Error> {
        arbitrary()
    }
}

impl TryFrom<&str> for Id {
    type Error = Error;

    fn try_from(value: &str) -> (r: Result<Self, Error>)
        ensures
            match r {
                Ok(id) => is_id(value@) && id@ == value@,
                Err(e) => !is_id(value@) && e@ == no_id(),
            },
    {
        Id::new(value)
    }
}

impl vstd::std_specs::convert::TryFromSpecImpl<&str> for Id {
    open spec fn obeys_try_from_spec() -> bool {
        false
    }

    open spec fn try_from_spec(v: &str) -> Result<Self, Error> {
        arbitrary()
    }
}

} // verus!
