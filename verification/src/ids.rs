//! Identifiers as text: reading the id that a client sends and writing the
//! id that it is sent.

use vstd::prelude::*;
use crate::catalog::Id;

verus! {

/// What `uuid::Uuid::parse_str` makes of a text: the 128-bit value of the
/// UUID that it reads, or nothing where it reads none.
pub uninterp spec fn parsed_uuid(text: Seq<char>) -> Option<u128>;

/// The sixteen digits of the hexadecimal system, small letters.
pub open spec fn hex_digit(n: int) -> char {
    seq!['0', '1', '2', '3', '4', '5', '6', '7', '8', '9', 'a', 'b', 'c', 'd', 'e', 'f'][n]
}

/// The lowest `count` hexadecimal digits of a number, the highest first.
pub open spec fn hex_digits(value: nat, count: nat) -> Seq<char>
    decreases count,
{
    if count == 0 {
        Seq::empty()
    } else {
        hex_digits(value / 16, (count - 1) as nat).push(hex_digit((value % 16) as int))
    }
}

/// An id in the hyphenated form: its thirty-two hexadecimal digits in groups
/// of eight, four, four, four and twelve, with hyphens between the groups.
pub open spec fn hyphenated(id: Id) -> Seq<char> {
    let digits = hex_digits(id as nat, 32);
    digits.subrange(0, 8) + seq!['-'] + digits.subrange(8, 12) + seq!['-'] + digits.subrange(12, 16)
        + seq!['-'] + digits.subrange(16, 20) + seq!['-'] + digits.subrange(20, 32)
}

/// Calls `uuid::Uuid::parse_str` and takes the 128-bit value of the UUID
/// with `Uuid::as_u128`. The contract names the result and claims nothing
/// more of it.
#[verifier::external_body]
fn parse_uuid(text: &str) -> (id: Option<u128>)
    ensures
        id == parsed_uuid(text@),
{
    match uuid::Uuid::parse_str(text) {
        Ok(uuid) => Some(uuid.as_u128()),
        Err(_) => None,
    }
}

/// Calls `uuid::Uuid::from_u128` and the `to_string` that the `Display` of
/// `Uuid` gives. The contract claims that the text is the hyphenated form in
/// small letters, and that `Uuid::parse_str` reads the id back from it.
#[verifier::external_body]
fn format_uuid(id: u128) -> (text: String)
    ensures
        text@ == hyphenated(id),
        parsed_uuid(text@) == Some(id),
{
    uuid::Uuid::from_u128(id).to_string()
}

/// Reads an id from a text in any of the forms of a UUID: thirty-two
/// hexadecimal digits, the hyphenated form, the hyphenated form in braces,
/// or the hyphenated form as a URN.
pub fn parse_id(text: &str) -> (id: Option<Id>)
    ensures
        id == parsed_uuid(text@),
{
    parse_uuid(text)
}

/// Writes an id in the hyphenated form. [`parse_id`] reads the id back from
/// the text.
pub fn id_text(id: Id) -> (text: String)
    ensures
        text@ == hyphenated(id),
        parsed_uuid(text@) == Some(id),
{
    format_uuid(id)
}

} // verus!
