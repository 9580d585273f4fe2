//! Digests and their hexadecimal spelling: SHA-1 names stored objects,
//! SHA-256 and HMAC-SHA-256 sign storage requests.

use sha1::Digest;
use vstd::prelude::*;

verus! {

/// The lowercase hexadecimal digit for `n < 16`.
pub open spec fn hex_digit(n: u8) -> char {
    if n < 10 {
        (('0' as u8) + n) as char
    } else {
        (('a' as u8) + (n - 10)) as char
    }
}

/// Two lowercase hexadecimal digits per byte, high nibble first, as
/// `hex::encode` spells bytes.
pub open spec fn hex_spec(b: Seq<u8>) -> Seq<char>
    decreases b.len(),
{
    if b.len() == 0 {
        Seq::empty()
    } else {
        hex_spec(b.drop_last()) + seq![hex_digit(b.last() / 16), hex_digit(b.last() % 16)]
    }
}

pub proof fn lemma_hex_len(b: Seq<u8>)
    ensures
        hex_spec(b).len() == 2 * b.len(),
    decreases b.len(),
{
    if b.len() > 0 {
        lemma_hex_len(b.drop_last());
    }
}

fn hex_digit_exec(n: u8) -> (c: char)
    requires
        n < 16,
    ensures
        c == hex_digit(n),
{
    if n < 10 {
        (('0' as u8) + n) as char
    } else {
        (('a' as u8) + (n - 10)) as char
    }
}

/// Lowercase hexadecimal of `data`.
pub fn hex_chars(data: &[u8]) -> (r: Vec<char>)
    ensures
        r@ == hex_spec(data@),
{
    let mut out: Vec<char> = Vec::new();
    let mut i: usize = 0;
    while i < data.len()
        invariant
            i <= data@.len(),
            out@ == hex_spec(data@.take(i as int)),
        decreases data.len() - i,
    {
        proof {
            assert(data@.take(i + 1).drop_last() =~= data@.take(i as int));
        }
        let b = data[i];
        out.push(hex_digit_exec(b / 16));
        out.push(hex_digit_exec(b % 16));
        i = i + 1;
    }
    assert(data@.take(data@.len() as int) =~= data@);
    out
}

/// SHA-1 of a byte string, as the `sha1` crate computes it.
pub uninterp spec fn sha1_digest(data: Seq<u8>) -> Seq<u8>;

/// SHA-256 of a byte string, as the `sha2` crate computes it.
pub uninterp spec fn sha256_digest(data: Seq<u8>) -> Seq<u8>;

/// `sha1::Sha1::digest`: claims the result is the SHA-1 of `data` (named
/// `sha1_digest`) and is 20 bytes long.
#[verifier::external_body]
pub(crate) fn sha1_of(data: &[u8]) -> (r: Vec<u8>)
    ensures
        r@ == sha1_digest(data@),
        r@.len() == 20,
{
    sha1::Sha1::digest(data).to_vec()
}

/// `sha2::Sha256::digest`: claims the result is the SHA-256 of `data`
/// (named `sha256_digest`) and is 32 bytes long.
#[verifier::external_body]
pub(crate) fn sha256_of(data: &[u8]) -> (r: Vec<u8>)
    ensures
        r@ == sha256_digest(data@),
        r@.len() == 32,
{
    sha2::Sha256::digest(data).to_vec()
}

/// The block size of SHA-256, in bytes.
pub open spec fn sha256_block() -> nat {
    64
}

/// The HMAC key block: the key itself, or its SHA-256 when longer than a
/// block, padded with zero bytes to a block.
pub open spec fn hmac_key_block(key: Seq<u8>) -> Seq<u8> {
    let k = if key.len() > sha256_block() {
        sha256_digest(key)
    } else {
        key
    };
    k + Seq::new((sha256_block() - k.len()) as nat, |i: int| 0u8)
}

/// Every byte of `b` xor-ed with `pad`.
pub open spec fn xor_all(b: Seq<u8>, pad: u8) -> Seq<u8> {
    Seq::new(b.len(), |i: int| b[i] ^ pad)
}

/// HMAC-SHA-256 (RFC 2104): `H((K ^ opad) || H((K ^ ipad) || data))`.
pub open spec fn hmac_sha256_spec(key: Seq<u8>, data: Seq<u8>) -> Seq<u8> {
    let k = hmac_key_block(key);
    sha256_digest(xor_all(k, 0x5c) + sha256_digest(xor_all(k, 0x36) + data))
}

/// Lowercase hexadecimal SHA-1 of `data`: the name of an object in the store.
pub fn sha1_hex(data: &[u8]) -> (r: String)
    ensures
        r@ == hex_spec(sha1_digest(data@)),
        r@.len() == 40,
{
    let d = sha1_of(data);
    let h = hex_chars(d.as_slice());
    proof {
        lemma_hex_len(d@);
    }
    crate::text::string_from_chars(h.as_slice())
}

/// Lowercase hexadecimal SHA-256 of `data` (server cores, launcher binaries).
pub fn sha256_bytes(data: &[u8]) -> (r: String)
    ensures
        r@ == hex_spec(sha256_digest(data@)),
        r@.len() == 64,
{
    let d = sha256_of(data);
    let h = hex_chars(d.as_slice());
    proof {
        lemma_hex_len(d@);
    }
    crate::text::string_from_chars(h.as_slice())
}

} // verus!
