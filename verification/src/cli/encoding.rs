//! How names travel: as URL-safe base64 of their UTF-8 bytes.

use vstd::prelude::*;

verus! {

/// The digit for `v` in the URL-safe base64 alphabet.
pub open spec fn base64_digit(v: int) -> char {
    if v < 26 {
        ('A' as int + v) as char
    } else if v < 52 {
        ('a' as int + (v - 26)) as char
    } else if v < 62 {
        ('0' as int + (v - 52)) as char
    } else if v == 62 {
        '-'
    } else {
        '_'
    }
}

/// The six bits of `bytes` that start at bit `6 * k`, the most significant bit
/// of a byte first. Past the last byte there are zeros.
pub open spec fn sextet(bytes: Seq<u8>, k: int) -> int {
    let at = 6 * k / 8;
    let next = if at + 1 < bytes.len() {
        bytes[at + 1] as int
    } else {
        0
    };
    let pair = bytes[at] * 256 + next;
    if 6 * k % 8 == 0 {
        pair / 1024 % 64
    } else if 6 * k % 8 == 2 {
        pair / 256 % 64
    } else if 6 * k % 8 == 4 {
        pair / 64 % 64
    } else {
        pair / 16 % 64
    }
}

/// How many digits `n` bytes take: six bits each, and no padding.
pub open spec fn base64_len(n: int) -> int {
    (4 * n + 2) / 3
}

/// `bytes` in URL-safe base64 without padding.
pub open spec fn base64_url(bytes: Seq<u8>) -> Seq<char> {
    Seq::new(base64_len(bytes.len() as int) as nat, |k: int| base64_digit(sextet(bytes, k)))
}

/// A name as it travels.
pub open spec fn encoded_name(name: Seq<char>) -> Seq<char> {
    base64_url(vstd::utf8::encode_utf8(name))
}

/// The encoded name fits into memory.
pub open spec fn encodable(name: Seq<char>) -> bool {
    base64_len(vstd::utf8::encode_utf8(name).len() as int) <= isize::MAX
}

/// Encodes bytes with `base64::Engine::encode` on the engine
/// `base64::engine::general_purpose::URL_SAFE_NO_PAD`.
///
/// The engine takes six bits at a time, most significant first, fills up the
/// last digit with zero bits, writes the digits of the alphabet `A` to `Z`,
/// `a` to `z`, `0` to `9`, `-` and `_`, and adds no padding. It panics where
/// the digits do not fit into memory.
#[verifier::external_body]
fn encode_url_safe(bytes: &[u8]) -> (r: String)
    requires
        base64_len(bytes@.len() as int) <= isize::MAX,
    ensures
        r@ == base64_url(bytes@),
{
    base64::Engine::encode(&base64::engine::general_purpose::URL_SAFE_NO_PAD, bytes)
}

/// Encodes a name for the server.
pub fn encode_name(name: &str) -> (r: String)
    requires
        encodable(name@),
    ensures
        r@ == encoded_name(name@),
{
    encode_url_safe(name.as_bytes())
}

/// Whether a name can be encoded.
pub fn is_encodable(name: &str) -> (r: bool)
    ensures
        r == encodable(name@),
{
    let n: u128 = name.as_bytes().len() as u128;
    let most: u128 = isize::MAX as u128;
    (4 * n + 2) / 3 <= most
}

/// Different names travel differently: what arrives tells which name was
/// meant.
pub proof fn encoding_loses_nothing(a: Seq<char>, b: Seq<char>)
    requires
        encoded_name(a) == encoded_name(b),
    ensures
        a == b,
{
    let x = vstd::utf8::encode_utf8(a);
    let y = vstd::utf8::encode_utf8(b);
    assert(base64_url(x).len() == base64_url(y).len());
    assert(x.len() == y.len());
    assert forall|i: int| 0 <= i < x.len() implies x[i] == y[i] by {
        let q = i / 3;
        if i % 3 == 0 {
            lemma_same_sextet(x, y, 4 * q);
            lemma_same_sextet(x, y, 4 * q + 1);
            lemma_first_byte(x, q);
            lemma_first_byte(y, q);
        } else if i % 3 == 1 {
            lemma_same_sextet(x, y, 4 * q + 1);
            lemma_same_sextet(x, y, 4 * q + 2);
            lemma_second_byte(x, q);
            lemma_second_byte(y, q);
        } else {
            lemma_same_sextet(x, y, 4 * q + 2);
            lemma_same_sextet(x, y, 4 * q + 3);
            lemma_third_byte(x, q);
            lemma_third_byte(y, q);
        }
    }
    assert(x =~= y);
    vstd::utf8::encode_utf8_decode_utf8(a);
    vstd::utf8::encode_utf8_decode_utf8(b);
}

/// What a digit of the URL-safe base64 alphabet stands for; 64 for any other
/// character.
pub open spec fn digit_value(c: char) -> int {
    let n = c as int;
    if 65 <= n <= 90 {
        n - 65
    } else if 97 <= n <= 122 {
        n - 97 + 26
    } else if 48 <= n <= 57 {
        n - 48 + 52
    } else if n == 45 {
        62
    } else if n == 95 {
        63
    } else {
        64
    }
}

/// Whoever reads the digits gets the bytes: every digit is one of the
/// alphabet, four of them spell three bytes, and the last one or two bytes are
/// spelled by two or three digits that end in zero bits, without padding.
pub proof fn digits_spell_the_bytes(bytes: Seq<u8>, q: int)
    requires
        0 <= q,
    ensures
        ({
            let d = base64_url(bytes);
            let n = bytes.len();
            &&& n % 3 == 0 ==> d.len() == n / 3 * 4
            &&& n % 3 == 1 ==> d.len() == n / 3 * 4 + 2
            &&& n % 3 == 2 ==> d.len() == n / 3 * 4 + 3
            &&& forall|k: int| 0 <= k < d.len() ==> 0 <= digit_value(#[trigger] d[k]) < 64
            &&& 3 * q < n ==> bytes[3 * q] == digit_value(d[4 * q]) * 4 + digit_value(
                d[4 * q + 1],
            ) / 16
            &&& 3 * q + 1 < n ==> bytes[3 * q + 1] == digit_value(d[4 * q + 1]) % 16 * 16
                + digit_value(d[4 * q + 2]) / 4
            &&& 3 * q + 2 < n ==> bytes[3 * q + 2] == digit_value(d[4 * q + 2]) % 4 * 64
                + digit_value(d[4 * q + 3])
            &&& n == 3 * q + 1 ==> digit_value(d[4 * q + 1]) % 16 == 0
            &&& n == 3 * q + 2 ==> digit_value(d[4 * q + 2]) % 4 == 0
        }),
{
    let d = base64_url(bytes);
    let n = bytes.len();
    assert forall|k: int| 0 <= k < d.len() implies digit_value(#[trigger] d[k]) == sextet(bytes, k)
        && 0 <= sextet(bytes, k) < 64 by {
        let v = sextet(bytes, k);
        assert(0 <= v < 64);
        assert(d[k] == base64_digit(v));
    }
    if 3 * q < n {
        lemma_first_byte(bytes, q);
    }
    if 3 * q + 1 < n {
        lemma_second_byte(bytes, q);
    }
    if 3 * q + 2 < n {
        lemma_third_byte(bytes, q);
    }
    if n == 3 * q + 1 {
        assert(6 * (4 * q + 1) / 8 == 3 * q);
        assert(6 * (4 * q + 1) % 8 == 6);
        let here = bytes[3 * q];
        assert(here * 256 / 16 % 64 % 16 == 0) by (bit_vector);
        assert(sextet(bytes, 4 * q + 1) == here * 256 / 16 % 64);
    }
    if n == 3 * q + 2 {
        assert(6 * (4 * q + 2) / 8 == 3 * q + 1);
        assert(6 * (4 * q + 2) % 8 == 4);
        let here = bytes[3 * q + 1];
        assert(here * 256 / 64 % 64 % 4 == 0) by (bit_vector);
        assert(sextet(bytes, 4 * q + 2) == here * 256 / 64 % 64);
    }
}

/// A name travels as the digits of its UTF-8 bytes.
pub proof fn names_travel_as_their_bytes(name: Seq<char>)
    ensures
        encoded_name(name) == base64_url(vstd::utf8::encode_utf8(name)),
        encodable(name) <==> base64_url(vstd::utf8::encode_utf8(name)).len() <= isize::MAX,
{
}

proof fn lemma_same_sextet(x: Seq<u8>, y: Seq<u8>, k: int)
    requires
        base64_url(x) == base64_url(y),
        x.len() == y.len(),
        0 <= k < base64_len(x.len() as int),
    ensures
        sextet(x, k) == sextet(y, k),
{
    assert(base64_url(x)[k] == base64_digit(sextet(x, k)));
    assert(base64_url(y)[k] == base64_digit(sextet(y, k)));
    let a = sextet(x, k);
    let b = sextet(y, k);
    assert(0 <= a < 64 && 0 <= b < 64);
}

proof fn lemma_first_byte(x: Seq<u8>, q: int)
    requires
        0 <= q,
        3 * q < x.len(),
    ensures
        x[3 * q] == sextet(x, 4 * q) * 4 + sextet(x, 4 * q + 1) / 16,
{
    assert(6 * (4 * q) / 8 == 3 * q);
    assert(6 * (4 * q + 1) / 8 == 3 * q);
    assert(6 * (4 * q) % 8 == 0);
    assert(6 * (4 * q + 1) % 8 == 6);
    let here = x[3 * q];
    let next = if 3 * q + 1 < x.len() {
        x[3 * q + 1]
    } else {
        0u8
    };
    assert((here * 256 + next) / 1024 % 64 == here / 4) by (bit_vector);
    assert((here * 256 + next) / 16 % 64 / 16 == here % 4) by (bit_vector);
    assert(sextet(x, 4 * q) == (here * 256 + next) / 1024 % 64);
    assert(sextet(x, 4 * q + 1) == (here * 256 + next) / 16 % 64);
}

proof fn lemma_second_byte(x: Seq<u8>, q: int)
    requires
        0 <= q,
        3 * q + 1 < x.len(),
    ensures
        x[3 * q + 1] == sextet(x, 4 * q + 1) % 16 * 16 + sextet(x, 4 * q + 2) / 4,
{
    assert(6 * (4 * q + 1) / 8 == 3 * q);
    assert(6 * (4 * q + 1) % 8 == 6);
    assert(6 * (4 * q + 2) / 8 == 3 * q + 1);
    assert(6 * (4 * q + 2) % 8 == 4);
    let before = x[3 * q];
    let here = x[3 * q + 1];
    let next = if 3 * q + 2 < x.len() {
        x[3 * q + 2]
    } else {
        0u8
    };
    assert((before * 256 + here) / 16 % 64 % 16 == here / 16) by (bit_vector);
    assert((here * 256 + next) / 64 % 64 / 4 == here % 16) by (bit_vector);
    assert(sextet(x, 4 * q + 1) == (before * 256 + here) / 16 % 64);
    assert(sextet(x, 4 * q + 2) == (here * 256 + next) / 64 % 64);
}

proof fn lemma_third_byte(x: Seq<u8>, q: int)
    requires
        0 <= q,
        3 * q + 2 < x.len(),
    ensures
        x[3 * q + 2] == sextet(x, 4 * q + 2) % 4 * 64 + sextet(x, 4 * q + 3),
{
    assert(6 * (4 * q + 2) / 8 == 3 * q + 1);
    assert(6 * (4 * q + 2) % 8 == 4);
    assert(6 * (4 * q + 3) / 8 == 3 * q + 2);
    assert(6 * (4 * q + 3) % 8 == 2);
    let before = x[3 * q + 1];
    let here = x[3 * q + 2];
    let next = if 3 * q + 3 < x.len() {
        x[3 * q + 3]
    } else {
        0u8
    };
    assert((before * 256 + here) / 64 % 64 % 4 == here / 64) by (bit_vector);
    assert((here * 256 + next) / 256 % 64 == here % 64) by (bit_vector);
    assert(sextet(x, 4 * q + 2) == (before * 256 + here) / 64 % 64);
    assert(sextet(x, 4 * q + 3) == (here * 256 + next) / 256 % 64);
}

} // verus!
