//! Record identifiers: UUIDs, held as their 128-bit values.

use vstd::prelude::*;
use vstd::arithmetic::power::pow;

verus! {

/// The bits of an identifier that hold a UUID's version and variant.
pub const KIND_MASK: u128 = 0x0000_0000_0000_F000_C000_0000_0000_0000;

/// The value of those bits in a random (version 4) UUID of the standard variant.
pub const RANDOM_KIND: u128 = 0x0000_0000_0000_4000_8000_0000_0000_0000;

/// The identifier that a text denotes when read as a UUID, if it denotes one.
pub uninterp spec fn parsed_id(text: Seq<char>) -> Option<u128>;

/// The lower-case hexadecimal digit for a value below sixteen.
pub open spec fn hex_digit(d: int) -> char
    recommends
        0 <= d < 16,
{
    seq!['0', '1', '2', '3', '4', '5', '6', '7', '8', '9', 'a', 'b', 'c', 'd', 'e', 'f'][d]
}

/// The value of one hexadecimal digit of an identifier; digit 0 is the most
/// significant of the thirty-two.
pub open spec fn digit_at(id: u128, k: int) -> int
    recommends
        0 <= k < 32,
{
    (id as int / pow(16, (31 - k) as nat)) % 16
}

/// How many hyphens the text form has before a place.
pub open spec fn hyphens_before(p: int) -> int {
    if p < 8 {
        0
    } else if p < 13 {
        1
    } else if p < 18 {
        2
    } else if p < 23 {
        3
    } else {
        4
    }
}

/// The text form of an identifier, which is its UUID in lower-case hyphenated
/// notation: the thirty-two hexadecimal digits, most significant first, in
/// groups of 8, 4, 4, 4 and 12 with a hyphen between two groups.
pub open spec fn id_text(id: u128) -> Seq<char> {
    Seq::new(
        36,
        |p: int|
            if p == 8 || p == 13 || p == 18 || p == 23 {
                '-'
            } else {
                hex_digit(digit_at(id, p - hyphens_before(p)))
            },
    )
}

/// An identifier is of the random kind when its version and variant bits say so.
pub open spec fn is_random_kind(id: u128) -> bool {
    id & KIND_MASK == RANDOM_KIND
}

/// Draws a random identifier with `uuid::Uuid::new_v4` and returns its value
/// (`Uuid::as_u128`).
///
/// Not proved: that the version and variant bits are those of a random UUID,
/// which `new_v4` sets by masking. Nothing is claimed of the other bits: two
/// draws may give the same identifier.
#[verifier::external_body]
pub(crate) fn fresh_id() -> (r: u128)
    ensures
        is_random_kind(r),
{
    uuid::Uuid::new_v4().as_u128()
}

/// Reads a text as a UUID with `uuid::Uuid::parse_str` and returns its value
/// (`Uuid::as_u128`), or `None` where the crate rejects the text.
///
/// Not proved: that the outcome depends on the text alone. Which texts are
/// accepted is left to the crate.
#[verifier::external_body]
pub(crate) fn parse_id(text: &str) -> (r: Option<u128>)
    ensures
        r == parsed_id(text@),
{
    match uuid::Uuid::parse_str(text) {
        Ok(u) => Some(u.as_u128()),
        Err(_) => None,
    }
}

/// Writes an identifier as text: `uuid::Uuid::from_u128`, then the crate's
/// `Display`.
///
/// Not proved: that the text is the lower-case hyphenated notation, which is
/// what the crate's `Display` writes, and that the text, read as a UUID,
/// gives the identifier back: the crate's parser accepts every notation that
/// the crate writes.
#[verifier::external_body]
pub(crate) fn write_id(id: u128) -> (r: String)
    ensures
        r@ == id_text(id),
        parsed_id(r@) == Some(id),
{
    uuid::Uuid::from_u128(id).to_string()
}

} // verus!
