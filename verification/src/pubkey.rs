//! Public keys of scrappers (33-byte compressed secp256k1 points) and their
//! hexadecimal text, as they travel in the `next-work` requests.

use vstd::prelude::*;
use vstd::string::*;
use crate::error::Failure;

verus! {

/// A compressed public key.
pub type PubKeyBytes = [u8; 33];

/// The value of a hexadecimal digit, either case.
pub open spec fn hex_value(c: char) -> Option<u8> {
    if '0' <= c && c <= '9' {
        Some((c as int - '0' as int) as u8)
    } else if 'a' <= c && c <= 'f' {
        Some((c as int - 'a' as int + 10) as u8)
    } else if 'A' <= c && c <= 'F' {
        Some((c as int - 'A' as int + 10) as u8)
    } else {
        None
    }
}

/// The bytes that a hexadecimal text stands for, two digits per byte, high
/// digit first; `None` where the text has an odd number of characters or a
/// character that is not a hexadecimal digit.
pub open spec fn hex_decoding(s: Seq<char>) -> Option<Seq<u8>>
    decreases s.len(),
{
    if s.len() == 0 {
        Some(Seq::empty())
    } else if s.len() == 1 {
        None
    } else {
        match (hex_value(s[0]), hex_value(s[1]), hex_decoding(s.subrange(2, s.len() as int))) {
            (Some(h), Some(l), Some(rest)) => Some(seq![(h * 16 + l) as u8] + rest),
            _ => None,
        }
    }
}

/// The lower-case hexadecimal digit of `d` (`0 <= d < 16`).
pub open spec fn lower_digit(d: int) -> char {
    if d < 10 { (d + '0' as int) as char } else { (d - 10 + 'a' as int) as char }
}

/// The lower-case hexadecimal text of `b`, two digits per byte, high digit first.
pub open spec fn hex_encoding(b: Seq<u8>) -> Seq<char>
    decreases b.len(),
{
    if b.len() == 0 {
        Seq::empty()
    } else {
        seq![lower_digit(b[0] as int / 16), lower_digit(b[0] as int % 16)] + hex_encoding(b.drop_first())
    }
}

/// Calls `hex::decode` on the bytes of `text`. Its documentation and source
/// show that it takes two hexadecimal digits (either case) per byte, high
/// digit first, and fails on an odd length or a byte that is not such a
/// digit; since a character outside ASCII is written with bytes that are no
/// digits, that is `hex_decoding` of the characters.
#[verifier::external_body]
fn hex_decode(text: &str) -> (res: Option<Vec<u8>>)
    ensures
        match hex_decoding(text@) {
            Some(b) => res matches Some(v) && v@ == b,
            None => res is None,
        },
{
    hex::decode(text).ok()
}

/// Calls `hex::encode`, which writes each byte as two lower-case hexadecimal
/// digits, high digit first: `hex_encoding`.
#[verifier::external_body]
fn hex_encode(bytes: &[u8]) -> (s: String)
    ensures
        s@ == hex_encoding(bytes@),
{
    hex::encode(bytes)
}

/// Writes a public key (or any bytes) as lower-case hexadecimal.
pub fn encode_pubkey(key: &[u8]) -> (s: String)
    ensures
        s@ == hex_encoding(key@),
{
    hex_encode(key)
}

/// The public key written in hexadecimal in `text`: it must stand for exactly 33 bytes.
pub fn decode_pubkey(text: &str) -> (res: Result<PubKeyBytes, Failure>)
    ensures
        match hex_decoding(text@) {
            Some(b) => if b.len() == 33 {
                res matches Ok(k) && k@ == b
            } else {
                res matches Err(Failure::InvalidPubKey)
            },
            None => res matches Err(Failure::InvalidPubKey),
        },
{
    let bytes = match hex_decode(text) {
        Some(b) => b,
        None => return Err(Failure::InvalidPubKey),
    };
    if bytes.len() != 33 {
        return Err(Failure::InvalidPubKey);
    }
    let mut key: PubKeyBytes = [0u8; 33];
    let mut i: usize = 0;
    while i < 33
        invariant
            bytes.len() == 33,
            i <= 33,
            forall|j: int| 0 <= j < i ==> key@[j] == bytes@[j],
        decreases 33 - i,
    {
        key[i] = bytes[i];
        i = i + 1;
    }
    assert(key@ =~= bytes@);
    Ok(key)
}

proof fn lemma_digit_roundtrip(d: int)
    requires
        0 <= d < 16,
    ensures
        hex_value(lower_digit(d)) == Some(d as u8),
{
}

/// Decoding the hexadecimal text of any bytes gives those bytes back: the
/// key that a scrapper writes into its request is the key the daemon reads.
pub proof fn lemma_hex_roundtrip(b: Seq<u8>)
    ensures
        hex_decoding(hex_encoding(b)) == Some(b),
    decreases b.len(),
{
    if b.len() > 0 {
        let s = hex_encoding(b);
        let hi = b[0] as int / 16;
        let lo = b[0] as int % 16;
        lemma_digit_roundtrip(hi as int);
        lemma_digit_roundtrip(lo as int);
        lemma_hex_roundtrip(b.drop_first());
        assert(s.subrange(2, s.len() as int) =~= hex_encoding(b.drop_first()));
        assert(seq![(hi * 16 + lo) as u8] + b.drop_first() =~= b);
    }
}

/// Decoding a key's hexadecimal text gives back that key.
pub proof fn lemma_pubkey_roundtrip(key: PubKeyBytes)
    ensures
        hex_decoding(hex_encoding(key@)) == Some(key@),
        key@.len() == 33,
{
    lemma_hex_roundtrip(key@);
}

} // verus!
