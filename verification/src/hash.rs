//! The content digest: a file's identity is the lowercase hex MD5 digest of
//! its full byte content.

use vstd::prelude::*;

verus! {

/// The lowercase hex digest of a byte sequence. The digest is a function of
/// the content alone, so two computations over equal content always agree.
pub uninterp spec fn digest_of(content: Seq<u8>) -> Seq<char>;

/// Relies on md5::compute, whose result depends on the input bytes alone,
/// written as 32 lowercase hex digits (two per digest byte).
#[verifier::external_body]
fn md5_hex(content: &[u8]) -> (r: String)
    ensures
        r@ == digest_of(content@),
        r@.len() == 32,
{
    format!("{:x}", md5::compute(content))
}

/// Computes the content digest of the given bytes.
pub fn compute_hash(content: &Vec<u8>) -> (r: String)
    ensures
        r@ == digest_of(content@),
        r@.len() == 32,
{
    md5_hex(content.as_slice())
}

/// Hashing is deterministic: any two computations of the digest over the
/// same byte content yield the same digest.
pub proof fn lemma_hash_deterministic(c1: Seq<u8>, c2: Seq<u8>)
    requires
        c1 == c2,
    ensures
        digest_of(c1) == digest_of(c2),
{
}

} // verus!
