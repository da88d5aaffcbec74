//! Content fingerprints: the SHA-256 digest of a text's UTF-8 form, written
//! in lower-case hexadecimal.

use sha2::Digest;
use sha2::Sha256;
use vstd::prelude::*;
use vstd::string::StringSliceAdditionalSpecFns;
use vstd::utf8::*;

verus! {

/// The SHA-256 digest of `data`.
pub uninterp spec fn sha256(data: Seq<u8>) -> Seq<u8>;

/// The lower-case hexadecimal digit for a value below 16.
pub open spec fn hex_digit(value: int) -> char {
    if value < 10 {
        (0x30 + value) as u8 as char
    } else {
        (0x57 + value) as u8 as char
    }
}

/// `bytes` in lower-case hexadecimal: two digits for each byte, the high
/// half first.
pub open spec fn hex_lower(bytes: Seq<u8>) -> Seq<char> {
    Seq::new(
        2 * bytes.len(),
        |i: int|
            if i % 2 == 0 {
                hex_digit(bytes[i / 2] as int / 16)
            } else {
                hex_digit(bytes[i / 2] as int % 16)
            },
    )
}

/// The fingerprint of a text.
pub open spec fn checksum_of(content: Seq<char>) -> Seq<char> {
    hex_lower(sha256(encode_utf8(content)))
}

/// `Sha256::digest` of the `sha2` crate: the digest of `data`, which has 32
/// bytes. The contract gives the digest a name and states its length; what
/// SHA-256 computes is not stated.
#[verifier::external_body]
fn sha256_digest(data: &[u8]) -> (digest: Vec<u8>)
    ensures
        digest@ == sha256(data@),
        digest@.len() == 32,
{
    Sha256::digest(data).to_vec()
}

/// `hex::encode` of the `hex` crate: each byte becomes two characters of
/// `0123456789abcdef`, the high four bits first.
#[verifier::external_body]
fn hex_encode(bytes: &[u8]) -> (text: String)
    ensures
        text@ == hex_lower(bytes@),
{
    hex::encode(bytes)
}

/// A digest, or any bytes, as lower-case hexadecimal text.
pub fn hex_string(bytes: &[u8]) -> (text: String)
    ensures
        text@ == hex_lower(bytes@),
        text@.len() == 2 * bytes@.len(),
{
    hex_encode(bytes)
}

/// The fingerprint of `content`: 64 hexadecimal characters.
pub fn checksum(content: &str) -> (text: String)
    ensures
        text@ == checksum_of(content@),
        text@.len() == 64,
{
    let digest = sha256_digest(content.as_bytes());
    hex_string(digest.as_slice())
}

/// A hexadecimal digit stands for one value only.
pub proof fn hex_digit_injective(x: int, y: int)
    requires
        0 <= x < 16,
        0 <= y < 16,
        hex_digit(x) == hex_digit(y),
    ensures
        x == y,
{
    let a: u8 = if x < 10 { (0x30 + x) as u8 } else { (0x57 + x) as u8 };
    let b: u8 = if y < 10 { (0x30 + y) as u8 } else { (0x57 + y) as u8 };
    assert(a as char == b as char);
    assert(a as char as u32 == a as u32);
    assert(b as char as u32 == b as u32);
}

/// Different byte strings have different hexadecimal forms.
pub proof fn hex_lower_injective(a: Seq<u8>, b: Seq<u8>)
    requires
        hex_lower(a) == hex_lower(b),
    ensures
        a == b,
{
    assert(hex_lower(a).len() == 2 * a.len());
    assert(hex_lower(b).len() == 2 * b.len());
    assert forall|k: int| 0 <= k < a.len() implies a[k] == b[k] by {
        let high_a = hex_lower(a)[2 * k];
        let high_b = hex_lower(b)[2 * k];
        let low_a = hex_lower(a)[2 * k + 1];
        let low_b = hex_lower(b)[2 * k + 1];
        assert((2 * k) % 2 == 0 && (2 * k) / 2 == k);
        assert((2 * k + 1) % 2 == 1 && (2 * k + 1) / 2 == k);
        hex_digit_injective(a[k] as int / 16, b[k] as int / 16);
        hex_digit_injective(a[k] as int % 16, b[k] as int % 16);
    }
    assert(a =~= b);
}

/// The fingerprint depends on the content alone: the same text always has the
/// same fingerprint.
pub proof fn checksum_deterministic(x: Seq<char>, y: Seq<char>)
    requires
        x == y,
    ensures
        checksum_of(x) == checksum_of(y),
{
}

/// Two texts share a fingerprint only where their SHA-256 digests collide.
pub proof fn checksum_collides_only_with_digest(x: Seq<char>, y: Seq<char>)
    ensures
        checksum_of(x) == checksum_of(y) <==> sha256(encode_utf8(x)) == sha256(encode_utf8(y)),
{
    if checksum_of(x) == checksum_of(y) {
        hex_lower_injective(sha256(encode_utf8(x)), sha256(encode_utf8(y)));
    }
}

/// Nothing is trimmed or folded before a text is hashed: two different
/// texts that share a fingerprint are a collision of SHA-256, two different
/// byte strings with one digest.
pub proof fn shared_checksum_is_a_collision(x: Seq<char>, y: Seq<char>)
    requires
        x != y,
        checksum_of(x) == checksum_of(y),
    ensures
        encode_utf8(x) != encode_utf8(y),
        sha256(encode_utf8(x)) == sha256(encode_utf8(y)),
{
    encode_utf8_decode_utf8(x);
    encode_utf8_decode_utf8(y);
    checksum_collides_only_with_digest(x, y);
}

} // verus!
