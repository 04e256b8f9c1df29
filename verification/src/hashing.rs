//! One-way hashing and hexadecimal encoding.
//!
//! SHA-256 is the single one-way function every component builds on: sealing
//! keystreams, MACs, measurements, quote signatures and session keys. Its
//! digest is modelled by the abstract function [`sha256_of`]; hexadecimal
//! encoding is modelled exactly by [`hex_of`] / [`hex_val_of`].

use vstd::prelude::*;
use sha2::Digest;

verus! {

/// Abstract SHA-256 digest of a byte sequence; a function of the input alone.
pub uninterp spec fn sha256_of(data: Seq<u8>) -> Seq<u8>;

/// The digest with its 32-byte length made definite, so specifications can
/// do length arithmetic over it.
pub open spec fn digest32(data: Seq<u8>) -> Seq<u8> {
    Seq::new(32, |i: int| sha256_of(data)[i])
}

/// Relies on sha2::Sha256 (via the Digest trait): the digest is a pure
/// function of the input bytes and is exactly 32 bytes long.
#[verifier::external_body]
pub(crate) fn sha256(data: &[u8]) -> (digest: Vec<u8>)
    ensures
        digest@ == sha256_of(data@),
        digest@.len() == 32,
{
    sha2::Sha256::digest(data).to_vec()
}

/// The digest as `digest32` sees it: the same bytes, with the length fact
/// folded in.
pub(crate) fn sha256d(data: &[u8]) -> (digest: Vec<u8>)
    ensures
        digest@ == digest32(data@),
        digest@.len() == 32,
{
    let d = sha256(data);
    proof {
        assert(d@ =~= digest32(data@));
    }
    d
}

/// The lowercase hexadecimal digit for a value below sixteen.
pub open spec fn hex_digit(n: int) -> char {
    if n == 0 {
        '0'
    } else if n == 1 {
        '1'
    } else if n == 2 {
        '2'
    } else if n == 3 {
        '3'
    } else if n == 4 {
        '4'
    } else if n == 5 {
        '5'
    } else if n == 6 {
        '6'
    } else if n == 7 {
        '7'
    } else if n == 8 {
        '8'
    } else if n == 9 {
        '9'
    } else if n == 10 {
        'a'
    } else if n == 11 {
        'b'
    } else if n == 12 {
        'c'
    } else if n == 13 {
        'd'
    } else if n == 14 {
        'e'
    } else {
        'f'
    }
}

/// Whether a character is a hexadecimal digit in either case.
pub open spec fn is_hex_digit(c: char) -> bool {
    ('0' <= c && c <= '9') || ('a' <= c && c <= 'f') || ('A' <= c && c <= 'F')
}

/// The numeric value of a hexadecimal digit character.
pub open spec fn hex_val(c: char) -> int {
    if '0' <= c && c <= '9' {
        c as int - '0' as int
    } else if 'a' <= c && c <= 'f' {
        c as int - 'a' as int + 10
    } else if 'A' <= c && c <= 'F' {
        c as int - 'A' as int + 10
    } else {
        0
    }
}

/// Lowercase hexadecimal encoding: two digits per byte, high digit first.
pub open spec fn hex_of(s: Seq<u8>) -> Seq<char> {
    Seq::new(
        s.len() * 2,
        |i: int|
            if i % 2 == 0 {
                hex_digit(s[i / 2] as int / 16)
            } else {
                hex_digit(s[i / 2] as int % 16)
            },
    )
}

/// Whether a character sequence is a well-formed hexadecimal string:
/// even length, every character a digit of either case.
pub open spec fn is_hex_seq(s: Seq<char>) -> bool {
    s.len() % 2 == 0 && (forall|i: int| 0 <= i < s.len() ==> is_hex_digit(#[trigger] s[i]))
}

/// The bytes denoted by a well-formed hexadecimal string.
pub open spec fn hex_val_of(s: Seq<char>) -> Seq<u8> {
    Seq::new(s.len() / 2, |i: int| (hex_val(s[2 * i]) * 16 + hex_val(s[2 * i + 1])) as u8)
}

/// Relies on hex::encode: two lowercase hexadecimal digits per input byte,
/// high digit first.
#[verifier::external_body]
pub(crate) fn hex_encode(data: &[u8]) -> (r: String)
    ensures
        r@ == hex_of(data@),
{
    hex::encode(data)
}

/// Relies on hex::decode: succeeds exactly on even-length strings made of
/// hexadecimal digits of either case, pairing digits into bytes; any other
/// input is rejected.
#[verifier::external_body]
pub(crate) fn hex_decode(s: &str) -> (r: Option<Vec<u8>>)
    ensures
        r is Some <==> is_hex_seq(s@),
        r matches Some(v) ==> v@ == hex_val_of(s@),
{
    match hex::decode(s) {
        Ok(v) => Some(v),
        Err(_) => None,
    }
}

/// Hexadecimal SHA-256 digest, the form every identity and signature field
/// carries.
pub(crate) fn sha256_hex(data: &[u8]) -> (r: String)
    ensures
        r@ == hex_of(digest32(data@)),
{
    let digest = sha256d(data);
    hex_encode(digest.as_slice())
}

/// Every lowercase digit produced by `hex_digit` is a hexadecimal digit,
/// decodes back to the value it encodes, and is ASCII.
proof fn lemma_hex_digit(n: int)
    requires
        0 <= n < 16,
    ensures
        is_hex_digit(hex_digit(n)),
        hex_val(hex_digit(n)) == n,
        '\0' <= hex_digit(n) <= '\u{7f}',
{
}

/// Hexadecimal encoding is lossless: the encoding of any byte sequence is a
/// well-formed hexadecimal string and decodes to exactly that sequence.
pub proof fn lemma_hex_round_trip(s: Seq<u8>)
    ensures
        is_hex_seq(hex_of(s)),
        hex_val_of(hex_of(s)) == s,
{
    let h = hex_of(s);
    assert forall|i: int| 0 <= i < h.len() implies is_hex_digit(#[trigger] h[i]) by {
        let b = s[i / 2] as int;
        if i % 2 == 0 {
            lemma_hex_digit(b / 16);
        } else {
            lemma_hex_digit(b % 16);
        }
    }
    assert forall|i: int| 0 <= i < s.len() implies hex_val_of(h)[i] == s[i] by {
        let b = s[i] as int;
        lemma_hex_digit(b / 16);
        lemma_hex_digit(b % 16);
        assert(h[2 * i] == hex_digit(b / 16));
        assert(h[2 * i + 1] == hex_digit(b % 16));
        assert(b / 16 * 16 + b % 16 == b);
    }
    assert(hex_val_of(h) =~= s);
}

/// Hexadecimal encodings consist of ASCII characters only.
pub proof fn lemma_hex_of_ascii(s: Seq<u8>)
    ensures
        vstd::utf8::is_ascii_chars(hex_of(s)),
{
    let h = hex_of(s);
    assert forall|i: int| 0 <= i < h.len() implies '\0' <= #[trigger] h[i] <= '\u{7f}' by {
        let b = s[i / 2] as int;
        if i % 2 == 0 {
            lemma_hex_digit(b / 16);
        } else {
            lemma_hex_digit(b % 16);
        }
    }
}

} // verus!
