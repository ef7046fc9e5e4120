//! The anonymous identifier of an installation: a UUID.

use vstd::prelude::*;

verus! {

/// The number that `uuid::Uuid::parse_str` reads out of a text, if it reads
/// one.
pub uninterp spec fn uuid_parse(text: Seq<char>) -> Option<u128>;

/// The hexadecimal digit of a number below sixteen.
pub open spec fn hex_digit(d: nat) -> char {
    if d < 10 {
        ((48 + d) as u8) as char
    } else {
        ((87 + d) as u8) as char
    }
}

/// The last `len` hexadecimal digits of a number.
pub open spec fn hex_digits(n: nat, len: nat) -> Seq<char>
    decreases len,
{
    if len == 0 {
        Seq::empty()
    } else {
        hex_digits(n / 16, (len - 1) as nat).push(hex_digit(n % 16))
    }
}

/// The usual text of a UUID: its digits in groups of 8, 4, 4, 4 and 12, with
/// a hyphen between two groups.
pub open spec fn hyphenated(id: u128) -> Seq<char> {
    let digits = hex_digits(id as nat, 32);
    digits.subrange(0, 8) + seq!['-'] + digits.subrange(8, 12) + seq!['-'] + digits.subrange(12, 16)
        + seq!['-'] + digits.subrange(16, 20) + seq!['-'] + digits.subrange(20, 32)
}

/// Whether the version of the UUID is the one of random identifiers.
pub open spec fn is_random_version(id: u128) -> bool {
    (id / 0x1000_0000_0000_0000_0000) % 16 == 4
}

/// Whether the UUID is laid out in the usual way.
pub open spec fn is_standard_variant(id: u128) -> bool {
    (id / 0x4000_0000_0000_0000) % 4 == 2
}

/// An anonymous identifier of an installation: a UUID, as a number.
#[derive(Clone, Copy, Debug, PartialEq, Eq, Structural)]
pub struct ServerId(pub u128);

/// `uuid::Uuid::parse_str`: the number that the text stands for, or none.
/// Which one depends on the text alone.
#[verifier::external_body]
fn parse_uuid(s: &str) -> (r: Option<u128>)
    ensures
        r == uuid_parse(s@),
{
    match uuid::Uuid::parse_str(s) {
        Ok(id) => Some(id.as_u128()),
        Err(_) => None,
    }
}

/// `uuid::Uuid`'s text, as `Display` gives it: lower-case hexadecimal digits
/// with hyphens. `uuid::Uuid::parse_str` reads it back.
#[verifier::external_body]
fn format_uuid(id: u128) -> (s: String)
    ensures
        s@ == hyphenated(id),
        uuid_parse(s@) == Some(id),
{
    uuid::Uuid::from_u128(id).to_string()
}

/// `uuid::Uuid::new_v4`: a random UUID, of which only the version and the
/// variant are certain.
#[verifier::external_body]
fn random_uuid() -> (id: u128)
    ensures
        is_random_version(id),
        is_standard_variant(id),
{
    uuid::Uuid::new_v4().as_u128()
}

impl ServerId {
    /// The identifier whose digits are all zero, a placeholder.
    pub fn nil() -> (r: Self)
        ensures
            r == ServerId(0),
    {
        ServerId(0)
    }

    /// A fresh random identifier; never the placeholder.
    pub fn random() -> (r: Self)
        ensures
            is_random_version(r.0),
            is_standard_variant(r.0),
            r != ServerId(0),
    {
        ServerId(random_uuid())
    }

    /// Reads an identifier.
    pub fn parse(s: &str) -> (r: Option<Self>)
        ensures
            r == (match uuid_parse(s@) {
                Some(id) => Some(ServerId(id)),
                None => None,
            }),
    {
        match parse_uuid(s) {
            Some(id) => Some(ServerId(id)),
            None => None,
        }
    }

    /// The identifier as text, from which it can be read back.
    pub fn text(&self) -> (s: String)
        ensures
            s@ == hyphenated(self.0),
            uuid_parse(s@) == Some(self.0),
    {
        format_uuid(self.0)
    }
}

/// Every character of a digit sequence is a hexadecimal digit.
proof fn lemma_hex_digits(n: nat, len: nat)
    ensures
        hex_digits(n, len).len() == len,
        forall|i: int|
            0 <= i < len ==> '0' <= #[trigger] hex_digits(n, len)[i] <= '9' || 'a' <= hex_digits(
                n,
                len,
            )[i] <= 'f',
    decreases len,
{
    if len > 0 {
        lemma_hex_digits(n / 16, (len - 1) as nat);
    }
}

/// The text of an identifier has 36 characters: hexadecimal digits and
/// hyphens.
pub proof fn lemma_hyphenated(id: u128)
    ensures
        hyphenated(id).len() == 36,
        forall|i: int|
            0 <= i < 36 ==> '0' <= #[trigger] hyphenated(id)[i] <= '9' || 'a' <= hyphenated(id)[i]
                <= 'f' || hyphenated(id)[i] == '-',
{
    lemma_hex_digits(id as nat, 32);
}

} // verus!
