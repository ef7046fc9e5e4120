//! [`FlagValue`]: the three types of flag values, and their JSON form.

use vstd::prelude::*;

use crate::text::{equal, trim, trimmed};
use crate::value::{
    equal_floats, float_eq, float_is_finite, float_is_nan, is_finite_float, JsonValue, JsonView,
    Number,
};

verus! {

/// The bits of the binary64 value that an integer becomes, as
/// `serde_json::Number::as_f64` gives it.
pub uninterp spec fn float_of_integer(n: i128) -> u64;

/// The bits of the binary64 value that a text stands for, as `str::parse`
/// reads it, if it reads one. Which bits a value that is not a number has is
/// open.
pub uninterp spec fn float_of_text(s: Seq<char>) -> Option<u64>;

/// Whether the bits stand for the same binary64 value; all values that are
/// not a number count as one.
pub open spec fn same_float(a: u64, b: u64) -> bool {
    a == b || float_is_nan(a) && float_is_nan(b)
}

/// A feature flag's value.
#[derive(Debug)]
pub enum FlagValue {
    /// A string.
    String(String),
    /// A number, as the bits of its IEEE 754 binary64 form.
    Number(u64),
    /// A boolean.
    Boolean(bool),
}

/// What a [`FlagValue`] stands for.
pub enum FlagView {
    String(Seq<char>),
    Number(u64),
    Boolean(bool),
}

impl View for FlagValue {
    type V = FlagView;

    open spec fn view(&self) -> FlagView {
        match *self {
            FlagValue::String(s) => FlagView::String(s@),
            FlagValue::Number(bits) => FlagView::Number(bits),
            FlagValue::Boolean(b) => FlagView::Boolean(b),
        }
    }
}

/// Whether two flag values are the same; all numbers that are not a number
/// count as one.
pub open spec fn same_flag(a: FlagView, b: FlagView) -> bool {
    match (a, b) {
        (FlagView::Number(x), FlagView::Number(y)) => same_float(x, y),
        _ => a == b,
    }
}

/// The JSON form of a flag value. A number that is not finite has none, and
/// becomes null.
pub open spec fn flag_json(value: FlagView) -> JsonView {
    match value {
        FlagView::String(s) => JsonView::String(s),
        FlagView::Number(bits) => if float_is_finite(bits) {
            JsonView::Number(Number::Float(bits))
        } else {
            JsonView::Null
        },
        FlagView::Boolean(b) => JsonView::Bool(b),
    }
}

/// The bits of a JSON number as a binary64 value.
pub open spec fn float_of_number(n: Number) -> u64 {
    match n {
        Number::PosInt(u) => float_of_integer(u as i128),
        Number::NegInt(i) => float_of_integer(i as i128),
        Number::Float(bits) => bits,
    }
}

/// The flag value that JSON stands for, of the same type as `like`. For a
/// number or a boolean, a string is also accepted that stands for one.
pub open spec fn flag_of_json(like: FlagView, json: JsonView) -> Option<FlagView> {
    match like {
        FlagView::String(_) => match json {
            JsonView::String(s) => Some(FlagView::String(s)),
            _ => None,
        },
        FlagView::Number(_) => match json {
            JsonView::Number(n) => Some(FlagView::Number(float_of_number(n))),
            JsonView::String(s) => match float_of_text(trimmed(s)) {
                Some(bits) => Some(FlagView::Number(bits)),
                None => None,
            },
            _ => None,
        },
        FlagView::Boolean(_) => match json {
            JsonView::Bool(b) => Some(FlagView::Boolean(b)),
            JsonView::String(s) => if s == "true"@ {
                Some(FlagView::Boolean(true))
            } else if s == "false"@ {
                Some(FlagView::Boolean(false))
            } else {
                None
            },
            _ => None,
        },
    }
}

/// `serde_json::Number::as_f64`, of an integer that fits into 64 bits: the
/// bits of the nearest binary64 value. They depend on the integer alone.
#[verifier::external_body]
fn integer_as_float(n: i128) -> (r: Option<u64>)
    requires
        i64::MIN <= n <= u64::MAX,
    ensures
        r == Some(float_of_integer(n)),
{
    serde_json::Number::from_i128(n).and_then(|number| number.as_f64()).map(|x| x.to_bits())
}

/// `str::parse`, for a binary64 value: its bits, or nothing if the text
/// stands for none. The value depends on the text alone, but for the bits of
/// one that is not a number. The call of `serde_json::Number::from_f64` says
/// which type is parsed.
#[verifier::external_body]
fn parse_float(s: &str) -> (r: Option<u64>)
    ensures
        match r {
            Some(bits) => float_of_text(s@) is Some && same_float(bits, float_of_text(s@)->0),
            None => float_of_text(s@) is None,
        },
{
    let parsed = s.parse().ok()?;
    let _ = serde_json::Number::from_f64(parsed);
    Some(parsed.to_bits())
}

impl FlagValue {
    /// Converts to the JSON form that is sent and received.
    pub fn to_json(&self) -> (r: JsonValue)
        ensures
            r@ == flag_json(self@),
    {
        match self {
            FlagValue::String(s) => JsonValue::string(s.as_str()),
            FlagValue::Number(bits) => if is_finite_float(*bits) {
                JsonValue::Number(Number::Float(*bits))
            } else {
                JsonValue::Null
            },
            FlagValue::Boolean(b) => JsonValue::Bool(*b),
        }
    }

    /// Reads a fetched JSON value as a flag value of the same type as this
    /// one. For a number or a boolean, a string is also accepted that stands
    /// for one. Nothing on any mismatch.
    pub fn parse_matching(&self, json: &JsonValue) -> (r: Option<FlagValue>)
        ensures
            match r {
                Some(value) => flag_of_json(self@, json@) is Some && same_flag(
                    value@,
                    flag_of_json(self@, json@)->0,
                ),
                None => flag_of_json(self@, json@) is None,
            },
    {
        match self {
            FlagValue::String(_) => match json {
                JsonValue::String(s) => Some(FlagValue::String(s.clone())),
                _ => None,
            },
            FlagValue::Number(_) => match json {
                JsonValue::Number(n) => Some(FlagValue::Number(number_as_float(*n))),
                JsonValue::String(s) => match parse_float(trim(s.as_str()).as_str()) {
                    Some(bits) => Some(FlagValue::Number(bits)),
                    None => None,
                },
                _ => None,
            },
            FlagValue::Boolean(_) => match json {
                JsonValue::Bool(b) => Some(FlagValue::Boolean(*b)),
                JsonValue::String(s) => if equal(s.as_str(), "true") {
                    Some(FlagValue::Boolean(true))
                } else if equal(s.as_str(), "false") {
                    Some(FlagValue::Boolean(false))
                } else {
                    None
                },
                _ => None,
            },
        }
    }

    /// Borrows the string value, if this is a [`FlagValue::String`].
    pub fn as_str(&self) -> (r: Option<&str>)
        ensures
            match (r, self@) {
                (Some(s), FlagView::String(t)) => s@ == t,
                (None, FlagView::String(_)) => false,
                (Some(_), _) => false,
                (None, _) => true,
            },
    {
        match self {
            FlagValue::String(s) => Some(s.as_str()),
            _ => None,
        }
    }

    /// The bits of the number, if this is a [`FlagValue::Number`].
    pub fn as_number_bits(&self) -> (r: Option<u64>)
        ensures
            r == (match self@ {
                FlagView::Number(bits) => Some(bits),
                _ => None,
            }),
    {
        match self {
            FlagValue::Number(bits) => Some(*bits),
            _ => None,
        }
    }

    /// The boolean value, if this is a [`FlagValue::Boolean`].
    pub fn as_bool(&self) -> (r: Option<bool>)
        ensures
            r == (match self@ {
                FlagView::Boolean(b) => Some(b),
                _ => None,
            }),
    {
        match self {
            FlagValue::Boolean(b) => Some(*b),
            _ => None,
        }
    }
}

fn number_as_float(n: Number) -> (bits: u64)
    ensures
        bits == float_of_number(n),
{
    let converted = match n {
        Number::PosInt(u) => integer_as_float(u as i128),
        Number::NegInt(i) => integer_as_float(i as i128),
        Number::Float(bits) => Some(bits),
    };
    match converted {
        Some(bits) => bits,
        None => 0,
    }
}

/// Whether two flag values are equal: of the same type, with equal values.
pub open spec fn flags_equal(a: FlagView, b: FlagView) -> bool {
    match (a, b) {
        (FlagView::Number(x), FlagView::Number(y)) => float_eq(x, y),
        _ => a == b,
    }
}

impl PartialEq for FlagValue {
    fn eq(&self, other: &Self) -> (r: bool) {
        match (self, other) {
            (FlagValue::String(a), FlagValue::String(b)) => *a == *b,
            (FlagValue::Number(a), FlagValue::Number(b)) => equal_floats(*a, *b),
            (FlagValue::Boolean(a), FlagValue::Boolean(b)) => *a == *b,
            _ => false,
        }
    }
}

impl vstd::std_specs::cmp::PartialEqSpecImpl for FlagValue {
    open spec fn obeys_eq_spec() -> bool {
        true
    }

    open spec fn eq_spec(&self, other: &Self) -> bool {
        flags_equal(self@, other@)
    }
}

impl Clone for FlagValue {
    fn clone(&self) -> (r: Self)
        ensures
            r@ == self@,
    {
        match self {
            FlagValue::String(s) => FlagValue::String(s.clone()),
            FlagValue::Number(bits) => FlagValue::Number(*bits),
            FlagValue::Boolean(b) => FlagValue::Boolean(*b),
        }
    }
}

impl From<String> for FlagValue {
    fn from(value: String) -> (r: Self) {
        FlagValue::String(value)
    }
}

impl vstd::std_specs::convert::FromSpecImpl<String> for FlagValue {
    open spec fn obeys_from_spec() -> bool {
        true
    }

    open spec fn from_spec(v: String) -> Self {
        FlagValue::String(v)
    }
}

impl From<&str> for FlagValue {
    fn from(value: &str) -> (r: Self)
        ensures
            r@ == FlagView::String(value@),
    {
        FlagValue::String(value.to_owned())
    }
}

impl vstd::std_specs::convert::FromSpecImpl<&str> for FlagValue {
    open spec fn obeys_from_spec() -> bool {
        false
    }

    open spec fn from_spec(v: &str) -> Self {
        arbitrary()
    }
}

impl From<bool> for FlagValue {
    fn from(value: bool) -> (r: Self) {
        FlagValue::Boolean(value)
    }
}

impl vstd::std_specs::convert::FromSpecImpl<bool> for FlagValue {
    open spec fn obeys_from_spec() -> bool {
        true
    }

    open spec fn from_spec(v: bool) -> Self {
        FlagValue::Boolean(v)
    }
}

/// A flag value is read back from its own JSON form, unless it is a number
/// that is not finite.
pub proof fn law_flag_json_reads_back(value: FlagView)
    requires
        match value {
            FlagView::Number(bits) => float_is_finite(bits),
            _ => true,
        },
    ensures
        flag_of_json(value, flag_json(value)) == Some(value),
{
}

/// What is read has the type of the flag that it is read for.
pub proof fn law_read_flag_keeps_type(like: FlagView, json: JsonView)
    requires
        flag_of_json(like, json) is Some,
    ensures
        like is String <==> flag_of_json(like, json)->0 is String,
        like is Number <==> flag_of_json(like, json)->0 is Number,
        like is Boolean <==> flag_of_json(like, json)->0 is Boolean,
{
}

} // verus!
