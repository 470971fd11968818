//! The cryptographic transform.
//!
//! A [`Transform`] turns a candidate byte string and a key into a fixed-size
//! pseudorandom digest.  The deployed transform is PBKDF2 with HMAC-SHA-256;
//! a degenerate all-zero transform is also provided so that the iteration
//! ceiling of the derivation loop can be exercised and reasoned about.

use vstd::prelude::*;

verus! {

/// Digest size in bytes of every transform.
pub const HASH_SIZE: usize = 32;

/// PBKDF2 round count of the deployed transform.
pub const PBKDF2_ROUNDS: u32 = 32;

/// A keyed transform from a byte string to a digest of `HASH_SIZE` bytes.
///
/// `digest_spec` names the digest mathematically; `apply` computes it.
pub trait Transform {
    /// The digest of `data` under `key`.
    spec fn digest_spec(&self, data: Seq<u8>, key: Seq<u8>) -> Seq<u8>;

    /// Compute the digest of `data` under `key`.
    fn apply(&self, data: &[u8], key: &[u8]) -> (r: Vec<u8>)
        ensures
            r@ == self.digest_spec(data@, key@),
            r@.len() == HASH_SIZE,
    ;
}

/// The digest that PBKDF2 with HMAC-SHA-256, `PBKDF2_ROUNDS` rounds and a
/// `HASH_SIZE`-byte output computes from a password and a salt.  It is a pure
/// function of the two byte strings; no short statement captures its value.
pub uninterp spec fn pbkdf2_digest(data: Seq<u8>, key: Seq<u8>) -> Seq<u8>;

/// Relies on `pbkdf2::pbkdf2_hmac::<sha2::Sha256>`: PBKDF2 derives its output
/// from the password and salt bytes alone (rounds and output length are fixed
/// here), fills the whole 32-byte buffer, and accepts any key length.
#[verifier::external_body]
fn pbkdf2_sha256(data: &[u8], key: &[u8]) -> (r: Vec<u8>)
    ensures
        r@ == pbkdf2_digest(data@, key@),
        r@.len() == HASH_SIZE,
{
    let mut hash = [0u8; HASH_SIZE];
    pbkdf2::pbkdf2_hmac::<sha2::Sha256>(data, key, PBKDF2_ROUNDS, &mut hash);
    hash.to_vec()
}

/// The deployed transform: PBKDF2 with HMAC-SHA-256, keyed by the master
/// secret, applied to the candidate bytes.
pub struct Pbkdf2Transform {}

impl Transform for Pbkdf2Transform {
    open spec fn digest_spec(&self, data: Seq<u8>, key: Seq<u8>) -> Seq<u8> {
        pbkdf2_digest(data, key)
    }

    fn apply(&self, data: &[u8], key: &[u8]) -> (r: Vec<u8>) {
        pbkdf2_sha256(data, key)
    }
}

/// A degenerate transform whose digest is all zero bytes.  Its encoding is a
/// uniform string that never satisfies the policy, so a derivation driven by
/// it must run into the iteration ceiling.
pub struct ZeroTransform {}

impl Transform for ZeroTransform {
    open spec fn digest_spec(&self, data: Seq<u8>, key: Seq<u8>) -> Seq<u8> {
        Seq::new(HASH_SIZE as nat, |i: int| 0u8)
    }

    fn apply(&self, data: &[u8], key: &[u8]) -> (r: Vec<u8>) {
        let mut out: Vec<u8> = Vec::new();
        let mut i: usize = 0;
        while i < HASH_SIZE
            invariant
                i <= HASH_SIZE,
                out@.len() == i,
                forall|k: int| 0 <= k < i ==> out@[k] == 0u8,
            decreases HASH_SIZE - i,
        {
            out.push(0u8);
            i += 1;
        }
        proof {
            assert(out@ =~= Seq::new(HASH_SIZE as nat, |i: int| 0u8));
        }
        out
    }
}

} // verus!
