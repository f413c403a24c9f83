//! Sample and directory identifiers: UUIDs held as 128-bit numbers, made
//! with the `uuid` crate and exchanged in its hyphenated text form.
use vstd::prelude::*;
use crate::text::digit_char;

verus! {

/// The lower-case hexadecimal digit for `d` (taken modulo 16).
pub open spec fn hex_digit(d: u128) -> char {
    let d = d % 16;
    if d < 10 {
        digit_char(d as nat)
    } else if d == 10 {
        'a'
    } else if d == 11 {
        'b'
    } else if d == 12 {
        'c'
    } else if d == 13 {
        'd'
    } else if d == 14 {
        'e'
    } else {
        'f'
    }
}

/// Where the hyphenated form puts its four hyphens.
pub open spec fn is_hyphen_position(i: int) -> bool {
    i == 8 || i == 13 || i == 18 || i == 23
}

/// Which hexadecimal digit (0 is the most significant) stands at position `i`
/// of the hyphenated form.
pub open spec fn nibble_index(i: int) -> int {
    if i < 8 {
        i
    } else if i < 13 {
        i - 1
    } else if i < 18 {
        i - 2
    } else if i < 23 {
        i - 3
    } else {
        i - 4
    }
}

/// The hexadecimal digit number `n` of `u`, counting from the most significant.
pub open spec fn nibble(u: u128, n: int) -> u128 {
    (u >> ((124 - 4 * n) as u128)) & 0xf
}

/// The hyphenated lower-case text of the UUID `u`: 32 hexadecimal digits,
/// most significant first, in groups of 8-4-4-4-12 joined by hyphens.
pub open spec fn uuid_text(u: u128) -> Seq<char> {
    Seq::new(
        36,
        |i: int|
            if is_hyphen_position(i) {
                '-'
            } else {
                hex_digit(nibble(u, nibble_index(i)))
            },
    )
}

/// The UUID whose hyphenated lower-case text is `s`, if `s` is such a text.
pub open spec fn hyphenated_value(s: Seq<char>) -> Option<u128> {
    if exists|u: u128| uuid_text(u) == s {
        Some(choose|u: u128| uuid_text(u) == s)
    } else {
        None
    }
}

/// What `uuid::Uuid::parse_str` gives for a text: the UUID, or the text of the
/// error it reports.
pub uninterp spec fn uuid_parse(s: Seq<char>) -> Result<u128, Seq<char>>;

/// The UUID is of version 4 (random) and of the RFC 4122 variant.
pub open spec fn is_random_uuid(u: u128) -> bool {
    (u >> 76u128) & 0xf == 4 && (u >> 62u128) & 0x3 == 2
}

/// Calls `uuid::Uuid::new_v4`. The number is random; the `uuid` source sets the
/// version bits to 4 and the variant bits to `10`, and that is all that is
/// claimed of it.
#[verifier::external_body]
pub(crate) fn random_id() -> (r: u128)
    ensures
        is_random_uuid(r),
{
    uuid::Uuid::new_v4().as_u128()
}

/// Calls `Display` of `uuid::Uuid`, which writes the hyphenated lower-case form.
#[verifier::external_body]
pub(crate) fn id_text(id: u128) -> (r: String)
    ensures
        r@ == uuid_text(id),
{
    uuid::Uuid::from_u128(id).to_string()
}

/// Calls `uuid::Uuid::parse_str` and renders its error with `to_string`. The
/// result is named `uuid_parse`; beyond that, the `uuid` documentation says
/// that the formats it writes parse back, so the hyphenated form of `u` gives
/// `u`. Which other texts are accepted, and the error texts, are not stated.
#[verifier::external_body]
pub(crate) fn parse_id(s: &str) -> (r: Result<u128, String>)
    ensures
        r is Ok <==> uuid_parse(s@) is Ok,
        r is Ok ==> r->Ok_0 == uuid_parse(s@)->Ok_0,
        r is Err ==> r->Err_0@ == uuid_parse(s@)->Err_0,
        hyphenated_value(s@) is Some ==> (r is Ok && r->Ok_0 == hyphenated_value(s@)->0),
{
    match uuid::Uuid::parse_str(s) {
        Ok(u) => Ok(u.as_u128()),
        Err(e) => Err(e.to_string()),
    }
}

} // verus!
