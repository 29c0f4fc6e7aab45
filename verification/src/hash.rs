//! Content hashes that identify a clip's payload.
use vstd::prelude::*;
use vstd::utf8::encode_utf8;

use sha2::Digest;

verus! {

/// What SHA-256 returns for `data`.
pub uninterp spec fn sha256(data: Seq<u8>) -> Seq<u8>;

/// Calls `sha2::Sha256::digest`; the digest is named by `sha256` and is 32
/// bytes long (its output type is a 32-byte array).
#[verifier::external_body]
fn sha256_digest(data: &[u8]) -> (r: Vec<u8>)
    ensures
        r@ == sha256(data@),
        r@.len() == 32,
{
    sha2::Sha256::digest(data).to_vec()
}

/// Lowercase hexadecimal digit for `n < 16`.
pub open spec fn hex_digit(n: int) -> char {
    if n < 10 {
        ((n + 48) as u32) as char
    } else {
        ((n + 87) as u32) as char
    }
}

/// Lowercase hexadecimal text of `bytes`, two digits per byte, high nibble first.
pub open spec fn hex_lower(bytes: Seq<u8>) -> Seq<char>
    decreases bytes.len(),
{
    if bytes.len() == 0 {
        Seq::<char>::empty()
    } else {
        hex_lower(bytes.drop_last()) + seq![
            hex_digit(bytes.last() as int / 16),
            hex_digit(bytes.last() as int % 16),
        ]
    }
}

/// Calls `hex::encode`, which writes each byte as two lowercase hexadecimal
/// digits, high nibble first.
#[verifier::external_body]
fn hex_encode(bytes: &[u8]) -> (s: String)
    ensures
        s@ == hex_lower(bytes@),
{
    hex::encode(bytes)
}

/// The bytes a clip's hash covers: kind, a zero byte, MIME type, a zero byte,
/// then the payload.
pub open spec fn hash_message(kind: Seq<char>, mime: Seq<char>, payload: Seq<u8>) -> Seq<u8> {
    encode_utf8(kind) + seq![0u8] + encode_utf8(mime) + seq![0u8] + payload
}

/// A clip's content hash: lowercase hex of the SHA-256 of its hash message.
pub open spec fn clip_digest(kind: Seq<char>, mime: Seq<char>, payload: Seq<u8>) -> Seq<char> {
    hex_lower(sha256(hash_message(kind, mime, payload)))
}

fn push_bytes(out: &mut Vec<u8>, bytes: &[u8])
    ensures
        final(out)@ == old(out)@ + bytes@,
{
    let mut i: usize = 0;
    while i < bytes.len()
        invariant
            0 <= i <= bytes@.len(),
            out@ == old(out)@ + bytes@.take(i as int),
        decreases bytes@.len() - i,
    {
        out.push(bytes[i]);
        assert(out@ =~= old(out)@ + bytes@.take(i + 1));
        i = i + 1;
    }
    assert(bytes@.take(bytes@.len() as int) =~= bytes@);
}

proof fn lemma_hex_len(bytes: Seq<u8>)
    ensures
        hex_lower(bytes).len() == 2 * bytes.len(),
    decreases bytes.len(),
{
    if bytes.len() > 0 {
        lemma_hex_len(bytes.drop_last());
    }
}

/// The content hash of a payload of the given kind and MIME type: 64
/// lowercase hex digits.
pub fn content_hash(kind: &str, mime: &str, payload: &[u8]) -> (r: String)
    ensures
        r@ == clip_digest(kind@, mime@, payload@),
        r@.len() == 64,
{
    let mut message: Vec<u8> = Vec::new();
    push_bytes(&mut message, kind.as_bytes());
    message.push(0u8);
    push_bytes(&mut message, mime.as_bytes());
    message.push(0u8);
    push_bytes(&mut message, payload);
    assert(message@ =~= hash_message(kind@, mime@, payload@));
    let digest = sha256_digest(message.as_slice());
    proof {
        lemma_hex_len(digest@);
    }
    hex_encode(digest.as_slice())
}

} // verus!
