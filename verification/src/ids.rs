//! Identifiers for users and identities.
//!
//! Both are UUIDs on the wire. Inside the library an identifier is the
//! 128-bit value itself; the `uuid` crate parses, prints and generates them.

use vstd::prelude::*;

verus! {

/// What `uuid::Uuid::parse_str` accepts: `Some` of the 128-bit value for a
/// well-formed UUID string, `None` otherwise. A function of the string alone.
pub uninterp spec fn uuid_of(s: Seq<char>) -> Option<u128>;

/// The canonical hyphenated lowercase rendering of a 128-bit identifier,
/// as `uuid::Uuid`'s `Display` produces it. A function of the value alone.
pub uninterp spec fn uuid_str_of(u: u128) -> Seq<char>;

/// Relies on `uuid::Uuid::parse_str` (with `Uuid::as_u128`): parsing
/// depends on the characters of the input alone.
#[verifier::external_body]
pub fn parse_uuid(s: &str) -> (r: Option<u128>)
    ensures
        r == uuid_of(s@),
{
    uuid::Uuid::parse_str(s).ok().map(|u| u.as_u128())
}

/// Relies on `uuid::Uuid`'s `Display` (with `Uuid::from_u128`): the
/// hyphenated lowercase rendering depends on the value alone.
#[verifier::external_body]
pub fn format_uuid(u: u128) -> (r: String)
    ensures
        r@ == uuid_str_of(u),
{
    uuid::Uuid::from_u128(u).to_string()
}

/// Relies on `uuid::Uuid::now_v7` (with `Uuid::as_u128`): a fresh
/// version-7 UUID drawn from the clock and a random source. Nothing can be
/// promised of the value.
#[verifier::external_body]
pub fn generate_uuid() -> u128 {
    uuid::Uuid::now_v7().as_u128()
}

} // verus!
