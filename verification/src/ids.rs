//! Universally unique identifiers in their textual forms.

use vstd::prelude::*;

use crate::text::{hex_digits, same_text};

verus! {

/// The identifier that `uuid::Uuid::parse_str` reads in a text, if it reads one.
pub uninterp spec fn uuid_value(text: Seq<char>) -> Option<u128>;

/// The hyphenated form of an identifier: its thirty-two digits in base sixteen, in
/// groups of eight, four, four, four and twelve.
pub open spec fn uuid_hyphenated(value: u128) -> Seq<char> {
    let digits = hex_digits(value as nat, 32);
    digits.subrange(0, 8) + seq!['-'] + digits.subrange(8, 12) + seq!['-'] + digits.subrange(
        12,
        16,
    ) + seq!['-'] + digits.subrange(16, 20) + seq!['-'] + digits.subrange(20, 32)
}

/// Reads an identifier with `uuid::Uuid::parse_str`. The outcome depends on the
/// text alone.
#[verifier::external_body]
pub(crate) fn parse_uuid(text: &str) -> (value: Option<u128>)
    ensures
        value == uuid_value(text@),
{
    match uuid::Uuid::parse_str(text) {
        Ok(value) => Some(value.as_u128()),
        Err(_) => None,
    }
}

/// Writes an identifier with `uuid::Uuid`'s `Display`: its lower case digits, with
/// hyphens between the groups, which `parse_str` reads back as the same identifier.
#[verifier::external_body]
pub(crate) fn uuid_text(value: u128) -> (text: String)
    ensures
        text@ == uuid_hyphenated(value),
        uuid_value(text@) == Some(value),
{
    uuid::Uuid::from_u128(value).to_string()
}

/// Draws an identifier with `uuid::Uuid::new_v4`. Of every identifier that it
/// draws, the version is the random one and the variant that of RFC 9562; the
/// other bits are left to chance.
#[verifier::external_body]
pub(crate) fn random_uuid() -> (value: u128)
    ensures
        (value >> 76) & 0xf == 4,
        (value >> 62) & 0x3 == 2,
{
    uuid::Uuid::new_v4().as_u128()
}

/// A byte of a number, counted from the most significant of sixteen.
pub open spec fn byte_of(value: u128, at: int) -> u8 {
    ((value >> ((120 - 8 * at) as u128)) & 0xff) as u8
}

/// The sixteen bytes of an identifier, the most significant first.
pub open spec fn uuid_octets(value: u128) -> Seq<u8> {
    Seq::new(16, |at: int| byte_of(value, at))
}

/// The bytes of an identifier, in the order in which they are sent.
pub fn uuid_bytes(value: u128) -> (bytes: [u8; 16])
    ensures
        bytes@ == uuid_octets(value),
{
    let bytes = [
        ((value >> 120) & 0xff) as u8,
        ((value >> 112) & 0xff) as u8,
        ((value >> 104) & 0xff) as u8,
        ((value >> 96) & 0xff) as u8,
        ((value >> 88) & 0xff) as u8,
        ((value >> 80) & 0xff) as u8,
        ((value >> 72) & 0xff) as u8,
        ((value >> 64) & 0xff) as u8,
        ((value >> 56) & 0xff) as u8,
        ((value >> 48) & 0xff) as u8,
        ((value >> 40) & 0xff) as u8,
        ((value >> 32) & 0xff) as u8,
        ((value >> 24) & 0xff) as u8,
        ((value >> 16) & 0xff) as u8,
        ((value >> 8) & 0xff) as u8,
        ((value >> 0) & 0xff) as u8,
    ];
    assert(bytes@ =~= uuid_octets(value));
    bytes
}

/// Whether a text is the canonical form of an identifier: it is read as one and
/// written back unchanged.
pub open spec fn is_canonical_uuid(text: Seq<char>) -> bool {
    uuid_value(text) is Some && uuid_hyphenated(uuid_value(text)->Some_0) == text
}

pub fn canonical_uuid(text: &str) -> (canonical: bool)
    ensures
        canonical == is_canonical_uuid(text@),
{
    match parse_uuid(text) {
        Some(value) => same_text(uuid_text(value).as_str(), text),
        None => false,
    }
}

} // verus!
