//! The hash primitive and its canonical text encoding: SHA-256 digests and
//! lowercase hexadecimal strings, together with the exact meaning of both.

use vstd::prelude::*;
use vstd::slice::slice_to_vec;
use vstd::utf8::encode_utf8;

use sha2::Digest;

verus! {

/// The lowercase hexadecimal digit for a value in `0 .. 16`.
pub open spec fn hex_digit(n: int) -> char {
    if n == 0 {
        '0'
    } else if n == 1 {
        '1'
    } else if n == 2 {
        '2'
    } else if n == 3 {
        '3'
    } else if n == 4 {
        '4'
    } else if n == 5 {
        '5'
    } else if n == 6 {
        '6'
    } else if n == 7 {
        '7'
    } else if n == 8 {
        '8'
    } else if n == 9 {
        '9'
    } else if n == 10 {
        'a'
    } else if n == 11 {
        'b'
    } else if n == 12 {
        'c'
    } else if n == 13 {
        'd'
    } else if n == 14 {
        'e'
    } else {
        'f'
    }
}

/// Lowercase base-16 rendering of a byte string: two digits per byte, high
/// nibble first, no separators.
pub open spec fn hex_of(b: Seq<u8>) -> Seq<char> {
    Seq::new(
        b.len() * 2,
        |i: int|
            if i % 2 == 0 {
                hex_digit(b[i / 2] as int / 16)
            } else {
                hex_digit(b[i / 2] as int % 16)
            },
    )
}

/// A character that base-16 decoding accepts (either case).
pub open spec fn is_hex_digit(c: char) -> bool {
    ('0' as int <= c as int && c as int <= '9' as int) || ('a' as int <= c as int && c as int
        <= 'f' as int) || ('A' as int <= c as int && c as int <= 'F' as int)
}

/// The value of a hexadecimal digit character; meaningful only under
/// `is_hex_digit`.
pub open spec fn hex_val(c: char) -> int {
    if '0' as int <= c as int && c as int <= '9' as int {
        c as int - '0' as int
    } else if 'a' as int <= c as int && c as int <= 'f' as int {
        10 + c as int - 'a' as int
    } else {
        10 + c as int - 'A' as int
    }
}

/// Every character of the sequence is a hexadecimal digit.
pub open spec fn is_hex_seq(s: Seq<char>) -> bool {
    forall|i: int| 0 <= i < s.len() ==> is_hex_digit(#[trigger] s[i])
}

/// The bytes denoted by a sequence of hexadecimal digits (pairs of digits,
/// high nibble first); meaningful only under `is_hex_seq` and even length.
pub open spec fn bytes_of_hex(s: Seq<char>) -> Seq<u8> {
    Seq::new(s.len() / 2, |i: int| (16 * hex_val(s[2 * i]) + hex_val(s[2 * i + 1])) as u8)
}

/// Hex rendering is made of hex digits, doubles the length, and decodes back
/// to the bytes it came from.
pub proof fn lemma_hex_of_round_trip(b: Seq<u8>)
    ensures
        hex_of(b).len() == 2 * b.len(),
        is_hex_seq(hex_of(b)),
        hex_of(b).len() % 2 == 0,
        bytes_of_hex(hex_of(b)) == b,
{
    let h = hex_of(b);
    assert forall|i: int| 0 <= i < h.len() implies is_hex_digit(#[trigger] h[i]) by {
        let n = if i % 2 == 0 {
            b[i / 2] as int / 16
        } else {
            b[i / 2] as int % 16
        };
        assert(0 <= n < 16);
    }
    assert forall|i: int| 0 <= i < b.len() implies bytes_of_hex(h)[i] == b[i] by {
        assert(h[2 * i] == hex_digit(b[i] as int / 16));
        assert(h[2 * i + 1] == hex_digit(b[i] as int % 16));
        assert(hex_val(hex_digit(b[i] as int / 16)) == b[i] as int / 16);
        assert(hex_val(hex_digit(b[i] as int % 16)) == b[i] as int % 16);
    }
    assert(bytes_of_hex(h) =~= b);
}

/// The 32-byte SHA-256 digest of a byte string. Its value is fixed by the
/// SHA-256 standard; this library never states what it is on given bytes.
pub uninterp spec fn sha256_of(data: Seq<u8>) -> Seq<u8>;

/// Relies on sha2::Sha256::digest: the SHA-256 digest is 32 bytes and a
/// function of the input bytes alone.
#[verifier::external_body]
pub(crate) fn sha256_bytes(data: &Vec<u8>) -> (r: Vec<u8>)
    ensures
        r@ == sha256_of(data@),
        r@.len() == 32,
{
    sha2::Sha256::digest(data.as_slice()).to_vec()
}

/// Relies on hex::encode: lowercase base-16, two digits per byte, high nibble
/// first.
#[verifier::external_body]
pub(crate) fn hex_encode(data: &Vec<u8>) -> (r: String)
    ensures
        r@ == hex_of(data@),
{
    hex::encode(data.as_slice())
}

/// Relies on hex::decode: an even number of hexadecimal digits (either case)
/// decodes to one byte per digit pair, high nibble first; anything else is
/// rejected.
#[verifier::external_body]
pub(crate) fn hex_decode(s: &str) -> (r: Option<Vec<u8>>)
    ensures
        r.is_some() <==> (s@.len() % 2 == 0 && is_hex_seq(s@)),
        r matches Some(b) ==> b@ == bytes_of_hex(s@),
{
    match hex::decode(s) {
        Ok(bytes) => Some(bytes),
        Err(_) => None,
    }
}

/// The UTF-8 bytes of a string, as a fresh vector.
pub(crate) fn str_bytes(s: &str) -> (r: Vec<u8>)
    ensures
        r@ == encode_utf8(s@),
{
    slice_to_vec(s.as_bytes())
}

} // verus!
