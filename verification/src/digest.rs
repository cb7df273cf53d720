//! SHA-256 digests written as lower-case hexadecimal text.

use vstd::prelude::*;
use vstd::string::StringSliceAdditionalSpecFns;

verus! {

/// The SHA-256 digest of a byte string.
pub uninterp spec fn sha256_of(data: Seq<u8>) -> Seq<u8>;

pub open spec fn hex_digit(n: int) -> char {
    if n < 10 {
        ((n + 0x30) as u32) as char
    } else {
        ((n - 10 + 0x61) as u32) as char
    }
}

/// Each byte as two lower-case hexadecimal digits, high nibble first.
pub open spec fn hex_text(b: Seq<u8>) -> Seq<char>
    decreases b.len(),
{
    if b.len() == 0 {
        Seq::empty()
    } else {
        hex_text(b.drop_last()) + seq![hex_digit((b.last() / 16) as int), hex_digit((b.last() % 16) as int)]
    }
}

pub open spec fn is_hex_lower(c: char) -> bool {
    (0x30 <= (c as u32) <= 0x39) || (0x61 <= (c as u32) <= 0x66)
}

/// `sha2::Sha256::digest`: the SHA-256 digest of `data`, which is 32 bytes
/// long.
#[verifier::external_body]
fn sha256_digest(data: &[u8]) -> (r: Vec<u8>)
    ensures
        r@ == sha256_of(data@),
        r@.len() == 32,
{
    <sha2::Sha256 as sha2::Digest>::digest(data).to_vec()
}

/// `hex::encode`: each byte as two lower-case hexadecimal digits.
#[verifier::external_body]
fn hex_encode(data: &[u8]) -> (r: String)
    ensures
        r@ == hex_text(data@),
{
    hex::encode(data)
}

/// The SHA-256 digest of the UTF-8 bytes of `input`, in hexadecimal.
pub open spec fn sha256_hex_text(input: Seq<char>) -> Seq<char> {
    hex_text(sha256_of(vstd::utf8::encode_utf8(input)))
}

pub proof fn lemma_hex_text(b: Seq<u8>)
    ensures
        hex_text(b).len() == 2 * b.len(),
        forall|i: int| 0 <= i < hex_text(b).len() ==> is_hex_lower(#[trigger] hex_text(b)[i]),
    decreases b.len(),
{
    if b.len() > 0 {
        lemma_hex_text(b.drop_last());
        let x = b.last();
        assert(0 <= x / 16 < 16);
        assert(0 <= x % 16 < 16);
        let t = hex_text(b);
        let p = hex_text(b.drop_last());
        assert forall|i: int| 0 <= i < t.len() implies is_hex_lower(#[trigger] t[i]) by {
            if i < p.len() {
                assert(t[i] == p[i]);
            }
        }
    }
}

/// Hexadecimal SHA-256 of the UTF-8 bytes of a text.
pub fn sha256_hex(input: &str) -> (r: String)
    ensures
        r@ == sha256_hex_text(input@),
        r@.len() == 64,
        forall|i: int| 0 <= i < r@.len() ==> is_hex_lower(#[trigger] r@[i]),
{
    let bytes = input.as_bytes();
    let digest = sha256_digest(bytes);
    proof {
        lemma_hex_text(digest@);
    }
    hex_encode(digest.as_slice())
}

/// Hexadecimal SHA-256 of a byte string, such as a file's content.
pub fn sha256_hex_bytes(data: &Vec<u8>) -> (r: String)
    ensures
        r@ == hex_text(sha256_of(data@)),
        r@.len() == 64,
        forall|i: int| 0 <= i < r@.len() ==> is_hex_lower(#[trigger] r@[i]),
{
    let digest = sha256_digest(data.as_slice());
    proof {
        lemma_hex_text(digest@);
    }
    hex_encode(digest.as_slice())
}

} // verus!
