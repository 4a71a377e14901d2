//! Identifiers of records: 128-bit values, drawn at random and written in the
//! hyphenated form of a UUID.

use vstd::prelude::*;
use crate::hashing::hex_digit;

verus! {

/// The identifier of a file, device or sync record.
pub type RecordId = u128;

/// Sixteen to the power `e`.
pub open spec fn pow16(e: nat) -> nat
    decreases e,
{
    if e == 0 {
        1
    } else {
        16 * pow16((e - 1) as nat)
    }
}

/// The `k`-th hexadecimal digit of an identifier, counted from the most
/// significant one, for `k` below 32.
pub open spec fn id_digit(id: RecordId, k: int) -> char {
    hex_digit((id as int / pow16((31 - k) as nat) as int) % 16)
}

/// The 32 hexadecimal digits of an identifier, most significant first.
pub open spec fn id_digits(id: RecordId) -> Seq<char> {
    Seq::new(32, |k: int| id_digit(id, k))
}

/// The hyphenated text of an identifier: its 32 lowercase hexadecimal
/// digits, most significant first, in groups of 8, 4, 4, 4 and 12 with a
/// hyphen between them.
pub open spec fn id_text(id: RecordId) -> Seq<char> {
    let digits = id_digits(id);
    let hyphen = "-"@;
    digits.subrange(0, 8) + hyphen + digits.subrange(8, 12) + hyphen + digits.subrange(12, 16)
        + hyphen + digits.subrange(16, 20) + hyphen + digits.subrange(20, 32)
}

/// Draws a fresh identifier.
///
/// Trusted: `uuid::Uuid::new_v4`, read through `Uuid::as_u128`. The value is
/// random, so nothing is promised of it; in particular it is not proved to
/// differ from identifiers drawn before.
#[verifier::external_body]
pub(crate) fn fresh_id() -> (id: RecordId) {
    uuid::Uuid::new_v4().as_u128()
}

/// Writes an identifier in hyphenated form.
///
/// Trusted: `uuid::Uuid::from_u128`, which takes the value's bytes in
/// big-endian order, and the `Display` of `Uuid`, which writes them as
/// lowercase hexadecimal digits in groups of 8, 4, 4, 4 and 12.
#[verifier::external_body]
pub(crate) fn format_id(id: RecordId) -> (text: String)
    ensures
        text@ == id_text(id),
{
    uuid::Uuid::from_u128(id).to_string()
}

} // verus!
