//! Regular expressions, as the `regex` crate reads them.

use vstd::prelude::*;

use crate::error::{refused, Error};

verus! {

/// What `regex::Regex::new` finds wrong with a pattern: nothing, or the text
/// of its error.
pub uninterp spec fn regex_error(pattern: Seq<char>) -> Option<Seq<char>>;

/// What `regex::Regex::is_match` answers for a pattern and a text.
pub uninterp spec fn regex_is_match(pattern: Seq<char>, text: Seq<char>) -> bool;

/// What `regex::Regex::replace_all` makes of a text, for a pattern and a
/// replacement.
pub uninterp spec fn regex_replace_all(
    pattern: Seq<char>,
    text: Seq<char>,
    replacement: Seq<char>,
) -> Seq<char>;

/// Whether the pattern is a regular expression.
pub open spec fn is_regex(pattern: Seq<char>) -> bool {
    regex_error(pattern) is None
}

/// The text with every match of the pattern replaced. A pattern that is no
/// regular expression replaces nothing.
pub open spec fn redacted(
    pattern: Seq<char>,
    text: Seq<char>,
    replacement: Seq<char>,
) -> Seq<char> {
    if is_regex(pattern) {
        regex_replace_all(pattern, text, replacement)
    } else {
        text
    }
}

/// Whether the character means something other than itself in a regular
/// expression.
pub open spec fn is_meta(c: char) -> bool {
    ||| c == '\\'
    ||| c == '.'
    ||| c == '+'
    ||| c == '*'
    ||| c == '?'
    ||| c == '('
    ||| c == ')'
    ||| c == '|'
    ||| c == '['
    ||| c == ']'
    ||| c == '{'
    ||| c == '}'
    ||| c == '^'
    ||| c == '$'
    ||| c == '#'
    ||| c == '&'
    ||| c == '-'
    ||| c == '~'
}

/// The text with a backslash before each of its meta characters.
pub open spec fn escaped(text: Seq<char>) -> Seq<char>
    decreases text.len(),
{
    if text.len() == 0 {
        Seq::empty()
    } else if is_meta(text.last()) {
        escaped(text.drop_last()).push('\\').push(text.last())
    } else {
        escaped(text.drop_last()).push(text.last())
    }
}

/// `regex::escape` puts a backslash before each meta character and keeps
/// every other character.
pub assume_specification[ regex::escape ](pattern: &str) -> (quoted: std::string::String)
    ensures
        quoted@ == escaped(pattern@),
;

/// `regex::Regex::new` on the pattern: its error, if it finds one. The
/// error, and whether there is one, depend on the pattern alone.
#[verifier::external_body]
fn compile(pattern: &str) -> (r: Result<(), String>)
    ensures
        match r {
            Ok(_) => regex_error(pattern@) is None,
            Err(e) => regex_error(pattern@) == Some(e@),
        },
{
    match regex::Regex::new(pattern) {
        Ok(_) => Ok(()),
        Err(e) => Err(e.to_string()),
    }
}

/// `regex::Regex::is_match`, on the text, of the pattern once compiled. What
/// it answers depends on the pattern and the text alone.
#[verifier::external_body]
fn is_match(pattern: &str, text: &str) -> (r: bool)
    requires
        is_regex(pattern@),
    ensures
        r == regex_is_match(pattern@, text@),
{
    regex::Regex::new(pattern).unwrap().is_match(text)
}

/// `regex::Regex::replace_all`, on the text, of the pattern once compiled,
/// where it compiles. What it makes of the text depends on the pattern, the
/// text and the replacement alone; a text in which the pattern has no match
/// is handed back as it is.
#[verifier::external_body]
fn replace_all(pattern: &str, text: &str, replacement: &str) -> (r: Option<String>)
    ensures
        match r {
            Some(s) => is_regex(pattern@) && s@ == regex_replace_all(
                pattern@,
                text@,
                replacement@,
            ) && (!regex_is_match(pattern@, text@) ==> s@ == text@),
            None => !is_regex(pattern@),
        },
{
    match regex::Regex::new(pattern) {
        Ok(compiled) => Some(compiled.replace_all(text, replacement).into_owned()),
        Err(_) => None,
    }
}

/// Replaces every match of `pattern` in `text`. In the replacement, `$1` or
/// `${1}` stands for the first group of the match.
pub fn redact(pattern: &str, text: &str, replacement: &str) -> (r: String)
    ensures
        r@ == redacted(pattern@, text@, replacement@),
        !regex_is_match(pattern@, text@) ==> r@ == text@,
{
    match replace_all(pattern, text, replacement) {
        Some(s) => s,
        None => text.to_owned(),
    }
}

/// A regular expression.
#[derive(Debug)]
pub struct Pattern {
    source: String,
}

impl View for Pattern {
    type V = Seq<char>;

    closed spec fn view(&self) -> Seq<char> {
        self.source@
    }
}

impl Pattern {
    #[verifier::type_invariant]
    spec fn well_formed(self) -> bool {
        is_regex(self.source@)
    }

    /// Reads a regular expression. Fails on a text that is none.
    pub fn new(source: &str) -> (r: Result<Self, Error>)
        ensures
            match r {
                Ok(pattern) => is_regex(source@) && pattern@ == source@,
                Err(e) => regex_error(source@) is Some && e@ == refused(
                    "pattern"@,
                    regex_error(source@)->0,
                ),
            },
    {
        match compile(source) {
            Ok(_) => Ok(Pattern { source: source.to_owned() }),
            Err(reason) => Err(Error::Validation { kind: "pattern", reason }),
        }
    }

    /// The regular expression as text.
    pub fn as_str(&self) -> (s: &str)
        ensures
            s@ == self@,
            is_regex(self@),
    {
        proof {
            use_type_invariant(self);
        }
        self.source.as_str()
    }

    /// Whether the text holds a match.
    pub fn is_match(&self, text: &str) -> (r: bool)
        ensures
            r == regex_is_match(self@, text@),
    {
        proof {
            use_type_invariant(self);
        }
        is_match(self.source.as_str(), text)
    }
}

} // verus!
