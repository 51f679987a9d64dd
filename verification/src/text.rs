//! Text forms of identifiers and key material: the hyphenated form of a
//! UUID and the lower-case hexadecimal form of bytes.

use vstd::prelude::*;
use vstd::arithmetic::power::pow;

verus! {

/// The lower-case hexadecimal digits, by value.
pub open spec fn hex_digits() -> Seq<char> {
    seq!['0', '1', '2', '3', '4', '5', '6', '7', '8', '9', 'a', 'b', 'c', 'd', 'e', 'f']
}

/// The lower-case hexadecimal digit of `d` (`0 <= d < 16`).
pub open spec fn hex_digit(d: int) -> char {
    hex_digits()[d]
}

/// Two lower-case hexadecimal digits per byte, the high half first.
pub open spec fn hex_lower(bytes: Seq<u8>) -> Seq<char> {
    Seq::new(
        2 * bytes.len(),
        |i: int|
            if i % 2 == 0 {
                hex_digit(bytes[i / 2] as int / 16)
            } else {
                hex_digit(bytes[i / 2] as int % 16)
            },
    )
}

/// The `k`-th of the 32 hexadecimal digits of `id`, most significant first.
pub open spec fn uuid_nibble(id: u128, k: int) -> int {
    (id as int / pow(16, (31 - k) as nat)) % 16
}

/// The character at position `p` (`0 <= p < 36`) of the hyphenated form.
pub open spec fn uuid_char(id: u128, p: int) -> char {
    if p == 8 || p == 13 || p == 18 || p == 23 {
        '-'
    } else {
        let hyphens_before: int = if p < 8 {
            0
        } else if p < 13 {
            1
        } else if p < 18 {
            2
        } else if p < 23 {
            3
        } else {
            4
        };
        hex_digit(uuid_nibble(id, p - hyphens_before))
    }
}

/// The hyphenated lower-case form of a UUID: 32 hexadecimal digits, most
/// significant first, in groups of 8, 4, 4, 4 and 12 joined by `-`.
pub open spec fn uuid_text(id: u128) -> Seq<char> {
    Seq::new(36, |p: int| uuid_char(id, p))
}

/// The text of a boolean, as Rust's `Debug` and `Display` write it.
pub open spec fn bool_text(b: bool) -> Seq<char> {
    if b {
        "true"@
    } else {
        "false"@
    }
}

/// Writes the UUID `id` in its hyphenated form.
///
/// Trusted: `uuid::Uuid::from_u128` then `to_string`; uuid's `Display` writes
/// the hyphenated lower-case form, byte by byte from the most significant.
#[verifier::external_body]
pub(crate) fn uuid_to_string(id: u128) -> (s: String)
    ensures
        s@ == uuid_text(id),
{
    uuid::Uuid::from_u128(id).to_string()
}

/// Writes `bytes` as lower-case hexadecimal.
///
/// Trusted: `hex::encode`, which writes each byte as two digits of
/// `0123456789abcdef`, the high half first.
#[verifier::external_body]
pub(crate) fn hex_encode(bytes: &[u8]) -> (s: String)
    ensures
        s@ == hex_lower(bytes@),
{
    hex::encode(bytes)
}

/// The text of a boolean.
pub(crate) fn bool_to_str(b: bool) -> (s: &'static str)
    ensures
        s@ == bool_text(b),
{
    if b {
        "true"
    } else {
        "false"
    }
}

} // verus!
