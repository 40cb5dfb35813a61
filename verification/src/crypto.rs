//! The placeholder cipher and content hashing.
//!
//! The byte-reversal cipher is an explicit stand-in for an authenticated
//! session cipher: it is kept behind the encryption strategy so that
//! replacing it touches no conversation or envelope logic. Hashing is done
//! by SHA3-256 rendered as lowercase hex; the digest itself is named, not
//! restated.

use vstd::prelude::*;
use vstd::utf8::encode_utf8;

verus! {

/// Encrypt by reversing the bytes. A placeholder, not a cipher.
pub fn encrypt_reverse(buf: Vec<u8>) -> (r: Vec<u8>)
    ensures
        r@ == buf@.reverse(),
{
    let mut out: Vec<u8> = Vec::new();
    let mut i: usize = buf.len();
    while i > 0
        invariant
            i <= buf@.len(),
            out@.len() == buf@.len() - i,
            forall|j: int| 0 <= j < out@.len() ==> out@[j] == buf@[buf@.len() - 1 - j],
        decreases i,
    {
        i = i - 1;
        let x = buf[i];
        out.push(x);
    }
    proof {
        assert(out@ =~= buf@.reverse());
    }
    out
}

/// Decrypt what `encrypt_reverse` produced: reverse again.
pub fn decrypt_reverse(buf: Vec<u8>) -> (r: Vec<u8>)
    ensures
        r@ == buf@.reverse(),
{
    encrypt_reverse(buf)
}

/// Reversal undoes itself: decrypting an encryption yields the plaintext.
pub proof fn lemma_reverse_involutive(b: Seq<u8>)
    ensures
        b.reverse().reverse() == b,
{
    assert(b.reverse().reverse() =~= b);
}

/// The lowercase hex rendering of the SHA3-256 digest of the given bytes.
/// The digest is a function of the bytes alone; its value is not restated
/// here.
pub uninterp spec fn sha3_256_hex(b: Seq<u8>) -> Seq<char>;

/// Relies on sha3's `Sha3_256` (a pure digest of its input) and on
/// `hex::encode` (two lowercase hex digits per digest byte).
#[verifier::external_body]
pub fn hash_to_string(buf: &[u8]) -> (r: String)
    ensures
        r@ == sha3_256_hex(buf@),
{
    let mut hasher = <sha3::Sha3_256 as sha3::Digest>::new();
    sha3::Digest::update(&mut hasher, buf);
    hex::encode(sha3::Digest::finalize(hasher))
}

/// Hash a string by hashing its UTF-8 bytes.
pub fn hash_string(buf: &str) -> (r: String)
    ensures
        r@ == sha3_256_hex(encode_utf8(buf@)),
{
    hash_to_string(buf.as_bytes())
}

} // verus!
