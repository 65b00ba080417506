//! Content digests: BLAKE3 over bytes, written as lower-case hexadecimal text.

use crate::text::{to_chars, views};
use vstd::prelude::*;

verus! {

/// The lower-case hexadecimal digit for `n`, for `0 <= n < 16`.
pub open spec fn hex_digit(n: int) -> char {
    if n < 10 {
        (('0' as int) + n) as char
    } else {
        (('a' as int) + n - 10) as char
    }
}

/// Whether `c` is a hexadecimal digit, in either case.
pub open spec fn is_hex_char(c: char) -> bool {
    ('0' <= c && c <= '9') || ('a' <= c && c <= 'f') || ('A' <= c && c <= 'F')
}

/// The number that the hexadecimal digit `c` stands for.
pub open spec fn hex_value(c: char) -> int {
    if '0' <= c && c <= '9' {
        (c as int) - ('0' as int)
    } else if 'a' <= c && c <= 'f' {
        (c as int) - ('a' as int) + 10
    } else {
        (c as int) - ('A' as int) + 10
    }
}

/// The hexadecimal text of `bytes`: two lower-case digits per byte, high
/// nibble first.
pub open spec fn hex_text(bytes: Seq<u8>) -> Seq<char> {
    Seq::new(
        2 * bytes.len(),
        |i: int|
            if i % 2 == 0 {
                hex_digit((bytes[i / 2] as int) / 16)
            } else {
                hex_digit((bytes[i / 2] as int) % 16)
            },
    )
}

/// Whether `s` is hexadecimal text: an even number of hexadecimal digits.
pub open spec fn is_hex(s: Seq<char>) -> bool {
    s.len() % 2 == 0 && forall|i: int| 0 <= i < s.len() ==> is_hex_char(#[trigger] s[i])
}

/// Whether every item of `s` is hexadecimal text.
pub open spec fn all_hex(s: Seq<Seq<char>>) -> bool {
    forall|i: int| 0 <= i < s.len() ==> is_hex(#[trigger] s[i])
}

/// The bytes that the hexadecimal text `s` stands for.
pub open spec fn hex_bytes(s: Seq<char>) -> Seq<u8> {
    Seq::new(
        s.len() / 2,
        |i: int| (hex_value(s[2 * i]) * 16 + hex_value(s[2 * i + 1])) as u8,
    )
}

/// Hexadecimal text is hexadecimal, and stands for the bytes it was made from.
pub proof fn lemma_hex_text_round_trip(bytes: Seq<u8>)
    ensures
        is_hex(hex_text(bytes)),
        hex_text(bytes).len() == 2 * bytes.len(),
        hex_bytes(hex_text(bytes)) == bytes,
{
    let t = hex_text(bytes);
    assert forall|i: int| 0 <= i < t.len() implies is_hex_char(#[trigger] t[i]) by {
        let b = bytes[i / 2] as int;
        assert(0 <= b / 16 < 16 && 0 <= b % 16 < 16);
    }
    assert forall|k: int| 0 <= k < bytes.len() implies #[trigger] hex_bytes(t)[k] == bytes[k] by {
        let b = bytes[k] as int;
        assert(0 <= b / 16 < 16 && 0 <= b % 16 < 16);
        assert(t[2 * k] == hex_digit(b / 16));
        assert(t[2 * k + 1] == hex_digit(b % 16));
        assert(hex_value(hex_digit(b / 16)) == b / 16);
        assert(hex_value(hex_digit(b % 16)) == b % 16);
        assert((b / 16) * 16 + b % 16 == b);
    }
    assert(hex_bytes(t) =~= bytes);
}

/// The BLAKE3 hash of `data`: the 32 bytes that `blake3::hash` returns.
pub uninterp spec fn blake3_digest(data: Seq<u8>) -> Seq<u8>;

/// The digest of `data` as hexadecimal text.
pub open spec fn digest_hex(data: Seq<u8>) -> Seq<char> {
    hex_text(blake3_digest(data))
}

/// Calls `hex::encode`, which writes each byte as two lower-case hexadecimal
/// digits, high nibble first.
#[verifier::external_body]
pub(crate) fn hex_encode(data: &[u8]) -> (s: String)
    ensures
        s@ == hex_text(data@),
{
    hex::encode(data)
}

/// Calls `hex::decode`, which fails on an odd number of bytes or on a byte
/// that is no hexadecimal digit, and otherwise joins each pair of digits into
/// one byte.
#[verifier::external_body]
pub(crate) fn hex_decode(s: &str) -> (r: Option<Vec<u8>>)
    ensures
        is_hex(s@) ==> r is Some && r->0@ == hex_bytes(s@),
        !is_hex(s@) ==> r is None,
{
    hex::decode(s).ok()
}

/// Calls `blake3::hash` and copies out its 32 bytes.
#[verifier::external_body]
pub(crate) fn blake3_hash(data: &[u8]) -> (out: Vec<u8>)
    ensures
        out@ == blake3_digest(data@),
        out@.len() == 32,
{
    blake3::hash(data).as_bytes().to_vec()
}

/// Whether `s` is hexadecimal text.
pub fn is_hex_str(s: &str) -> (r: bool)
    ensures
        r == is_hex(s@),
{
    let v = to_chars(s);
    if v.len() % 2 != 0 {
        return false;
    }
    let mut i: usize = 0;
    while i < v.len()
        invariant
            i <= v.len(),
            v@ == s@,
            forall|k: int| 0 <= k < i ==> is_hex_char(#[trigger] v@[k]),
        decreases v.len() - i,
    {
        let c = v[i];
        let ok = ('0' <= c && c <= '9') || ('a' <= c && c <= 'f') || ('A' <= c && c <= 'F');
        if !ok {
            return false;
        }
        i += 1;
    }
    true
}

/// Whether every item of `v` is hexadecimal text.
pub fn all_hex_strings(v: &[String]) -> (r: bool)
    ensures
        r == all_hex(views(v@)),
{
    let mut i: usize = 0;
    while i < v.len()
        invariant
            i <= v.len(),
            forall|k: int| 0 <= k < i ==> is_hex(#[trigger] views(v@)[k]),
        decreases v.len() - i,
    {
        if !is_hex_str(v[i].as_str()) {
            proof {
                assert(!is_hex(views(v@)[i as int]));
            }
            return false;
        }
        i += 1;
    }
    true
}

/// The BLAKE3 digest of `data` as 64 lower-case hexadecimal digits.
pub fn blake3_hex(data: &[u8]) -> (s: String)
    ensures
        s@ == digest_hex(data@),
        is_hex(s@),
        s@.len() == 64,
{
    let raw = blake3_hash(data);
    proof {
        lemma_hex_text_round_trip(raw@);
    }
    hex_encode(raw.as_slice())
}

} // verus!
