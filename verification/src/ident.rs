//! Identifiers.

use vstd::prelude::*;

verus! {

/// An identifier: the 128 bits of a UUID, most significant byte first.
pub type Uuid = u128;

/// The bits that mark a random (version 4) UUID of the standard layout.
pub open spec fn is_random_uuid(id: Uuid) -> bool {
    (id >> 76) & 0xf == 4 && (id >> 62) & 0x3 == 2
}

/// Draws an identifier with `uuid::Uuid::new_v4`, as its 128 bits
/// (`Uuid::as_u128`).
///
/// Which one comes back is chance, and nothing rules out that it was drawn
/// before. What every draw has is the version and the variant of a random
/// UUID. It panics where the system has no random bytes to give.
#[verifier::external_body]
pub(crate) fn fresh_uuid() -> (id: Uuid)
    ensures
        is_random_uuid(id),
{
    uuid::Uuid::new_v4().as_u128()
}

/// The hexadecimal digit for `v`, in lower case.
pub open spec fn hex_digit(v: u128) -> char {
    if v < 10 {
        ('0' as u128 + v) as char
    } else {
        ('a' as u128 + (v - 10)) as char
    }
}

/// How many hyphens stand before position `i` of a written identifier.
pub open spec fn hyphens_before(i: int) -> int {
    if i <= 8 {
        0
    } else if i <= 13 {
        1
    } else if i <= 18 {
        2
    } else if i <= 23 {
        3
    } else {
        4
    }
}

/// The written form of an identifier: 32 hexadecimal digits, most significant
/// first, in groups of eight, four, four, four and twelve.
pub open spec fn uuid_text(id: Uuid) -> Seq<char> {
    Seq::new(
        36,
        |i: int|
            if i == 8 || i == 13 || i == 18 || i == 23 {
                '-'
            } else {
                hex_digit((id >> ((4 * (31 - (i - hyphens_before(i)))) as u128)) & 0xf)
            },
    )
}

/// What a lower-case hexadecimal digit stands for; 16 for any other character.
pub open spec fn hex_value(c: char) -> int {
    let n = c as int;
    if 48 <= n <= 57 {
        n - 48
    } else if 97 <= n <= 102 {
        n - 97 + 10
    } else {
        16
    }
}

/// Where digit `k` of an identifier stands in its written form.
pub open spec fn digit_place(k: int) -> int {
    if k < 8 {
        k
    } else if k < 12 {
        k + 1
    } else if k < 16 {
        k + 2
    } else if k < 20 {
        k + 3
    } else {
        k + 4
    }
}

/// Whoever reads a written identifier gets its bits: hyphens stand behind
/// eight, twelve, sixteen and twenty digits, and each digit is four bits, the
/// highest first.
pub proof fn written_identifiers_spell_their_bits(id: Uuid, k: int)
    requires
        0 <= k < 32,
    ensures
        uuid_text(id).len() == 36,
        uuid_text(id)[8] == '-',
        uuid_text(id)[13] == '-',
        uuid_text(id)[18] == '-',
        uuid_text(id)[23] == '-',
        hex_value(uuid_text(id)[digit_place(k)]) == (id >> ((124 - 4 * k) as u128)) & 0xf,
{
    let i = digit_place(k);
    let shift = (124 - 4 * k) as u128;
    assert((id >> shift) & 0xf < 16) by (bit_vector);
    assert((4 * (31 - (i - hyphens_before(i)))) as u128 == shift);
}

/// Writes an identifier with the `Display` form of `uuid::Uuid` (made by
/// `Uuid::from_u128`): lower case, hyphenated.
#[verifier::external_body]
pub(crate) fn write_uuid(id: Uuid) -> (r: String)
    ensures
        r@ == uuid_text(id),
{
    uuid::Uuid::from_u128(id).to_string()
}

} // verus!
