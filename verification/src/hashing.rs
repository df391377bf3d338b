//! Content addressing: the SHA-256 digest of a byte sequence and its
//! serialized `sha256:<hex>` form.
use vstd::prelude::*;
use crate::strutil::{bytes_to_hex, hex_of, lemma_hex_of_len};
use crate::names::{digest_prefix, is_valid_digest};

verus! {

/// The SHA-256 digest of a byte sequence, as 32 bytes. What those bytes are
/// is fixed by the hash function alone; contracts only rely on it being a
/// function of the input.
pub uninterp spec fn sha256_of(bytes: Seq<u8>) -> Seq<u8>;

/// Relies on sha2::Sha256::digest: the 32-byte SHA-256 digest of the input,
/// a function of the input bytes alone.
#[verifier::external_body]
pub fn sha256(bytes: &Vec<u8>) -> (r: Vec<u8>)
    ensures
        r@ == sha256_of(bytes@),
        r@.len() == 32,
{
    <sha2::Sha256 as sha2::Digest>::digest(bytes.as_slice()).to_vec()
}

/// The serialized digest of a byte sequence: `sha256:` then 64 hex digits.
pub open spec fn spec_digest_of(bytes: Seq<u8>) -> Seq<char> {
    digest_prefix() + hex_of(sha256_of(bytes))
}

/// Every serialized digest is well-formed.
pub proof fn lemma_digest_of_valid(bytes: Seq<u8>)
    requires
        sha256_of(bytes).len() == 32,
    ensures
        is_valid_digest(spec_digest_of(bytes)),
{
    lemma_hex_of_len(sha256_of(bytes));
    assert(spec_digest_of(bytes).subrange(0, 7) =~= digest_prefix());
}

/// Computes the serialized digest of a byte sequence.
pub fn digest_of(data: &Vec<u8>) -> (s: String)
    ensures
        s@ == spec_digest_of(data@),
        is_valid_digest(s@),
        sha256_of(data@).len() == 32,
{
    let h = sha256(data);
    let hex = bytes_to_hex(&h);
    proof {
        reveal_strlit("sha256:");
        assert("sha256:"@ =~= digest_prefix());
        lemma_digest_of_valid(data@);
    }
    let mut s = "sha256:".to_owned();
    s.append(hex.as_str());
    s
}

} // verus!
