//! The identifier of a backup request: a UUID, held as its 128 bits.

use vstd::prelude::*;

verus! {

/// What `uuid::Uuid::parse_str` makes of a text: the 128 bits of the UUID
/// that the text writes out, or nothing where it writes out none.
pub uninterp spec fn parsed_uuid(text: Seq<char>) -> Option<u128>;

/// `uuid::Error`, the failure of `uuid::Uuid::parse_str`. Nothing is known
/// of what it holds.
#[verifier::external_type_specification]
#[verifier::external_body]
pub struct ExUuidError(uuid::Error);

/// The `k`-th of the 32 hexadecimal digits of `value`, the most significant
/// first, in lower case.
pub open spec fn hex_digit(value: u128, k: int) -> char {
    "0123456789abcdef"@[((value >> ((4 * (31 - k)) as u128)) & 0xf) as int]
}

/// The hyphenated form of a UUID: its 32 hexadecimal digits in lower case, in
/// groups of 8, 4, 4, 4 and 12, with a hyphen between two groups.
pub open spec fn hyphenated(value: u128) -> Seq<char> {
    Seq::new(
        36,
        |i: int|
            if i == 8 || i == 13 || i == 18 || i == 23 {
                '-'
            } else if i < 8 {
                hex_digit(value, i)
            } else if i < 13 {
                hex_digit(value, i - 1)
            } else if i < 18 {
                hex_digit(value, i - 2)
            } else if i < 23 {
                hex_digit(value, i - 3)
            } else {
                hex_digit(value, i - 4)
            },
    )
}

/// Calls `uuid::Uuid::parse_str` and hands out the bits of the UUID it read
/// (`Uuid::as_u128`). Trusted: that the call fails exactly where
/// `parsed_uuid` is `None`, and else returns the bits that it names.
#[verifier::external_body]
fn uuid_parse_str(text: &str) -> (res: Result<u128, uuid::Error>)
    ensures
        res is Ok <==> parsed_uuid(text@) is Some,
        res matches Ok(value) ==> parsed_uuid(text@) == Some(value),
{
    match uuid::Uuid::parse_str(text) {
        Ok(id) => Ok(id.as_u128()),
        Err(e) => Err(e),
    }
}

/// Formats the UUID with the bits `value` (`Uuid::from_u128`) as `Uuid`'s
/// `Display` does. Trusted: that this writes the hyphenated lower-case form,
/// and that `uuid::Uuid::parse_str` reads that form back to the same bits.
#[verifier::external_body]
fn uuid_to_string(value: u128) -> (res: String)
    ensures
        res@ == hyphenated(value),
        parsed_uuid(res@) == Some(value),
{
    uuid::Uuid::from_u128(value).to_string()
}

/// The identifier of a backup request.
#[derive(Debug, Clone, Copy, PartialEq, Eq, Structural, Hash)]
pub struct RequestId {
    pub value: u128,
}

impl RequestId {
    pub fn from_u128(value: u128) -> (res: RequestId)
        ensures
            res.value == value,
    {
        RequestId { value }
    }

    pub fn as_u128(&self) -> (res: u128)
        ensures
            res == self.value,
    {
        self.value
    }

    /// Reads an identifier from a text in any of the forms in which a UUID is
    /// written.
    pub fn parse_str(text: &str) -> (res: Result<RequestId, crate::error::QueueError>)
        ensures
            match parsed_uuid(text@) {
                Some(value) => res matches Ok(id) && id.value == value,
                None => res matches Err(crate::error::QueueError::InvalidId),
            },
    {
        match uuid_parse_str(text) {
            Ok(value) => Ok(RequestId { value }),
            Err(_) => Err(crate::error::QueueError::InvalidId),
        }
    }

    /// The identifier in the hyphenated form, in which the request table
    /// keeps it. `parse_str` reads it back.
    pub fn text(&self) -> (res: String)
        ensures
            res@ == hyphenated(self.value),
            parsed_uuid(res@) == Some(self.value),
    {
        uuid_to_string(self.value)
    }
}

} // verus!
