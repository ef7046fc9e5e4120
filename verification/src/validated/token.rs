//! A validated FastStats project token.

use vstd::prelude::*;

use crate::error::{refused, Error, ErrorView};
use crate::text::chars_of;

verus! {

/// The pattern of a token, for readers: exactly 32 lower-case letters and
/// digits.
pub const PATTERN: &'static str = "[a-z0-9]{32}";

/// The number of characters of a token.
pub const TOKEN_LENGTH: usize = 32;

/// Whether a token may hold the character.
pub open spec fn is_token_char(c: char) -> bool {
    'a' <= c <= 'z' || '0' <= c <= '9'
}

/// Whether the text is a token: 32 lower-case letters and digits.
pub open spec fn is_token(s: Seq<char>) -> bool {
    s.len() == TOKEN_LENGTH && forall|i: int| 0 <= i < s.len() ==> is_token_char(#[trigger] s[i])
}

/// The error for a text that is no token.
pub open spec fn no_token() -> ErrorView {
    refused("token"@, "must match pattern [a-z0-9]{32}"@)
}

/// Returns whether `value` matches the pattern.
fn matches_pattern(value: &str) -> (r: bool)
    ensures
        r == is_token(value@),
{
    let chars = chars_of(value);
    let mut i: usize = 0;
    while i < chars.len()
        invariant
            i <= chars@.len(),
            chars@ == value@,
            forall|j: int| 0 <= j < i ==> is_token_char(#[trigger] value@[j]),
        decreases chars@.len() - i,
    {
        let c = chars[i];
        if !('a' <= c && c <= 'z' || '0' <= c && c <= '9') {
            assert(!is_token_char(value@[i as int]));
            return false;
        }
        i += 1;
    }
    chars.len() == TOKEN_LENGTH
}

/// A validated FastStats project token. It has no `Debug` form, so that it
/// cannot end up in a log.
#[derive(Eq, Hash)]
pub struct Token(String);

impl View for Token {
    type V = Seq<char>;

    closed spec fn view(&self) -> Seq<char> {
        self.0@
    }
}

impl Token {
    #[verifier::type_invariant]
    spec fn well_formed(self) -> bool {
        is_token(self.0@)
    }

    /// Validates and wraps a token string.
    pub fn new(value: &str) -> (r: Result<Self, Error>)
        ensures
            match r {
                Ok(token) => is_token(value@) && token@ == value@,
                Err(e) => !is_token(value@) && e@ == no_token(),
            },
    {
        if matches_pattern(value) {
            Ok(Token(value.to_owned()))
        } else {
            Err(Error::validation("token", "must match pattern [a-z0-9]{32}"))
        }
    }

    /// Borrows the token as a string slice.
    pub fn as_str(&self) -> (s: &str)
        ensures
            s@ == self@,
            is_token(s@),
    {
        proof {
            use_type_invariant(self);
        }
        self.0.as_str()
    }

    /// What stands for the token in a log: never the token itself.
    pub fn text(&self) -> (s: String)
        ensures
            s@ == "Token(***)"@,
    {
        "Token(***)".to_owned()
    }
}

impl Clone for Token {
    fn clone(&self) -> (r: Self)
        ensures
            r@ == self@,
    {
        proof {
            use_type_invariant(self);
        }
        Token(self.0.clone())
    }
}

impl PartialEq for Token {
    fn eq(&self, other: &Self) -> (r: bool) {
        self.0 == other.0
    }
}

impl vstd::std_specs::cmp::PartialEqSpecImpl for Token {
    open spec fn obeys_eq_spec() -> bool {
        true
    }

    open spec fn eq_spec(&self, other: &Self) -> bool {
        self@ == other@
    }
}

impl TryFrom<String> for Token {
    type Error = Error;

    fn try_from(value: String) -> (r: Result<Self, Error>)
        ensures
            match r {
                Ok(token) => is_token(value@) && token@ == value@,
                Err(e) => !is_token(value@) && e@ == no_token(),
            },
    {
        Token::new(value.as_str())
    }
}

impl vstd::std_specs::convert::TryFromSpecImpl<String> for Token {
    open spec fn obeys_try_from_spec() -> bool {
        false
    }

    open spec fn try_from_spec(v: String) -> Result<Self, Error> {
        arbitrary()
    }
}

impl TryFrom<&str> for Token {
    type Error = Error;

    fn try_from(value: &str) -> (r: Result<Self, Error>)
        ensures
            match r {
                Ok(token) => is_token(value@) && token@ == value@,
                Err(e) => !is_token(value@) && e@ == no_token(),
            },
    {
        Token::new(value)
    }
}

impl vstd::std_specs::convert::TryFromSpecImpl<&str> for Token {
    open spec fn obeys_try_from_spec() -> bool {
        false
    }

    open spec fn try_from_spec(v: &str) -> Result<Self, Error> {
        arbitrary()
    }
}

} // verus!
