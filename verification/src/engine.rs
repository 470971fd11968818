//! The derivation engine.
//!
//! A candidate byte string is transformed into a digest, the digest is
//! encoded into the 64-symbol alphabet, and the encoding is checked against
//! the character-class policy.  If it fails, the bytes of the encoding become
//! the next candidate — so the result is a pure, history-free function of the
//! original input and key — until the policy is satisfied or the iteration
//! ceiling is passed.

use vstd::prelude::*;
use vstd::string::StringSliceAdditionalSpecFns;

use crate::alphabet::in_alphabet;
use crate::alphabet::in_alphabet_char;
use crate::compose::compose_input;
use crate::compose::compose_spec;
use crate::compose::opt_slice_bytes;
use crate::compose::opt_str_bytes;
use crate::encode::encode;
use crate::encode::encode_spec;
use crate::encode::lemma_encode_spec_alphabet;
use crate::encode::lemma_encode_spec_len;
use crate::policy::all_features;
use crate::policy::all_features_chars;
use crate::policy::has_all_features;
use crate::policy::lemma_ascii_features;
use crate::transform::Pbkdf2Transform;
use crate::transform::Transform;
use crate::transform::HASH_SIZE;
use crate::transform::ZeroTransform;

verus! {

/// The iteration ceiling: a derivation makes at most `MAX_ITERATIONS + 1`
/// transform applications before it gives up.
pub const MAX_ITERATIONS: u32 = 100;

/// Length in symbols of every derived password: the encoding length of a
/// `HASH_SIZE`-byte digest.
pub const PASSWORD_LEN: usize = (4 * HASH_SIZE + 2) / 3;

/// The one failure a derivation can report.
#[derive(Debug, Clone, Copy, PartialEq, Eq, Structural)]
pub enum DerivationError {
    /// The iteration ceiling was passed without satisfying the policy.  The
    /// same inputs would fail the same way again, so the failure is final.
    ConfigurationExhaustion,
}

/// A derived password together with the number of transform applications it
/// took to reach it.
#[derive(Debug)]
pub struct Derived {
    pub password: String,
    pub iterations: u32,
}

/// ASCII bytes read as the characters with the same code points.
pub open spec fn ascii_chars(s: Seq<u8>) -> Seq<char> {
    Seq::new(s.len(), |i: int| s[i] as char)
}

/// Relies on `String::from_utf8`: bytes below 128 are valid UTF-8 and decode
/// to exactly the characters with those code points.
#[verifier::external_body]
fn ascii_string(bytes: Vec<u8>) -> (r: String)
    requires
        forall|i: int| 0 <= i < bytes@.len() ==> bytes@[i] < 128,
    ensures
        r@ == ascii_chars(bytes@),
{
    String::from_utf8(bytes).unwrap_or_default()
}

/// The `n`-th candidate of the derivation chain: the composed input at 0,
/// then each encoding of the digest of the previous candidate.
pub open spec fn chain<T: Transform>(t: &T, input: Seq<u8>, key: Seq<u8>, n: nat) -> Seq<u8>
    decreases n,
{
    if n == 0 {
        input
    } else {
        encode_spec(t.digest_spec(chain(t, input, key, (n - 1) as nat), key))
    }
}

/// A successful derivation stops exactly at `iterations`: the first chain
/// element that satisfies the policy, inside the ceiling.
pub open spec fn derivation_ok<T: Transform>(
    t: &T,
    input: Seq<u8>,
    key: Seq<u8>,
    iterations: nat,
) -> bool {
    &&& 1 <= iterations <= MAX_ITERATIONS + 1
    &&& all_features(chain(t, input, key, iterations))
    &&& forall|n: nat| 1 <= n < iterations ==> !all_features(chain(t, input, key, n))
}

/// An exhausted derivation: no candidate inside the ceiling satisfies the
/// policy.
pub open spec fn derivation_exhausted<T: Transform>(t: &T, input: Seq<u8>, key: Seq<u8>) -> bool {
    forall|n: nat| 1 <= n <= MAX_ITERATIONS + 1 ==> !all_features(chain(t, input, key, n))
}

/// Everything `Ok(d)` promises: the password is the first policy-satisfying
/// chain element, drawn from the alphabet, of fixed length, showing all four
/// character classes.
pub open spec fn derive_ok<T: Transform>(t: &T, input: Seq<u8>, key: Seq<u8>, d: Derived) -> bool {
    &&& derivation_ok(t, input, key, d.iterations as nat)
    &&& d.password@ == ascii_chars(chain(t, input, key, d.iterations as nat))
    &&& d.password@.len() == PASSWORD_LEN
    &&& all_features_chars(d.password@)
    &&& forall|i: int| 0 <= i < d.password@.len() ==> in_alphabet_char(#[trigger] d.password@[i])
}

/// Derive a password from `input` under `key` with transform `t`.
pub fn derive_with<T: Transform>(t: &T, input: &[u8], key: &[u8]) -> (r: Result<
    Derived,
    DerivationError,
>)
    ensures
        match r {
            Ok(d) => derive_ok(t, input@, key@, d),
            Err(e) => {
                &&& e == DerivationError::ConfigurationExhaustion
                &&& derivation_exhausted(t, input@, key@)
            },
        },
{
    let mut candidate: Vec<u8> = vstd::slice::slice_to_vec(input);
    let mut count: u32 = 0;
    loop
        invariant
            count <= MAX_ITERATIONS,
            candidate@ == chain(t, input@, key@, count as nat),
            forall|n: nat| 1 <= n <= count ==> !all_features(chain(t, input@, key@, n)),
        decreases MAX_ITERATIONS - count,
    {
        count = count + 1;
        let digest = t.apply(candidate.as_slice(), key);
        let encoded = encode(digest.as_slice());
        let ghost enc = encoded@;
        proof {
            assert(enc == chain(t, input@, key@, count as nat));
            lemma_encode_spec_alphabet(digest@);
            lemma_encode_spec_len(digest@);
        }
        if has_all_features(encoded.as_slice()) {
            let password = ascii_string(encoded);
            proof {
                lemma_ascii_features(enc, password@);
                assert forall|i: int| 0 <= i < password@.len() implies in_alphabet_char(
                    #[trigger] password@[i],
                ) by {
                    assert(in_alphabet(enc[i]));
                    let s = choose|s: int| 0 <= s < 64 && crate::alphabet::alphabet_byte(s)
                        == enc[i];
                    assert((crate::alphabet::alphabet_byte(s) as char) == password@[i]);
                }
            }
            return Ok(Derived { password, iterations: count });
        }
        if count > MAX_ITERATIONS {
            return Err(DerivationError::ConfigurationExhaustion);
        }
        candidate = encoded;
    }
}

/// Derive a password from the already composed `hashable` bytes, keyed by the
/// master secret, with the deployed PBKDF2 transform.
pub fn create_password(hashable: &[u8], master_key: &[u8]) -> (r: Result<Derived, DerivationError>)
    ensures
        match r {
            Ok(d) => derive_ok(&(Pbkdf2Transform {}), hashable@, master_key@, d),
            Err(e) => {
                &&& e == DerivationError::ConfigurationExhaustion
                &&& derivation_exhausted(&(Pbkdf2Transform {}), hashable@, master_key@)
            },
        },
{
    let t = Pbkdf2Transform {};
    derive_with(&t, hashable, master_key)
}

/// The composed input of a full derivation: secondary secret, then username,
/// then domain.
pub open spec fn composed_of(
    secondary_secret: Option<&[u8]>,
    username: Option<&str>,
    domain: &str,
) -> Seq<u8> {
    compose_spec(opt_slice_bytes(secondary_secret), opt_str_bytes(username), domain.spec_bytes())
}

/// Derive the password for `domain` (and optional `username`) from the master
/// secret and the optional secondary secret.  The result is a pure function
/// of the four inputs.
pub fn derive_password(
    domain: &str,
    username: Option<&str>,
    master_secret: &[u8],
    secondary_secret: Option<&[u8]>,
) -> (r: Result<Derived, DerivationError>)
    ensures
        match r {
            Ok(d) => derive_ok(
                &(Pbkdf2Transform {}),
                composed_of(secondary_secret, username, domain),
                master_secret@,
                d,
            ),
            Err(e) => {
                &&& e == DerivationError::ConfigurationExhaustion
                &&& derivation_exhausted(
                    &(Pbkdf2Transform {}),
                    composed_of(secondary_secret, username, domain),
                    master_secret@,
                )
            },
        },
{
    let composed = compose_input(secondary_secret, username, domain);
    create_password(composed.as_slice(), master_secret)
}

/// Ceiling enforcement: under a transform whose digest never varies — the
/// all-zero transform — no candidate ever satisfies the policy, so every
/// derivation must end in `ConfigurationExhaustion`.
pub proof fn lemma_zero_transform_exhausts(input: Seq<u8>, key: Seq<u8>)
    ensures
        derivation_exhausted(&(ZeroTransform {}), input, key),
{
    let t = &(ZeroTransform {});
    assert forall|n: nat| 1 <= n <= MAX_ITERATIONS + 1 implies !all_features(
        chain(t, input, key, n),
    ) by {
        let zeros = t.digest_spec(chain(t, input, key, (n - 1) as nat), key);
        assert(chain(t, input, key, n) == encode_spec(zeros));
        crate::encode::lemma_encode_spec_zero(zeros);
        let enc = encode_spec(zeros);
        if crate::policy::has_lowercase(enc) {
            let i = choose|i: int|
                0 <= i < enc.len() && crate::policy::is_lowercase_byte(#[trigger] enc[i]);
            assert(enc[i] == crate::alphabet::alphabet_byte(0));
        }
    }
}

/// Determinism: the derivation outcome is a function of transform, input and
/// key alone.  Any two iteration counts that both satisfy `derivation_ok`
/// coincide, so the reported password — the chain element at that count — is
/// the same as well.
pub proof fn lemma_derivation_deterministic<T: Transform>(
    t: &T,
    input: Seq<u8>,
    key: Seq<u8>,
    i1: nat,
    i2: nat,
)
    requires
        derivation_ok(t, input, key, i1),
        derivation_ok(t, input, key, i2),
    ensures
        i1 == i2,
        chain(t, input, key, i1) == chain(t, input, key, i2),
{
    if i1 < i2 {
        assert(!all_features(chain(t, input, key, i1)));
    }
    if i2 < i1 {
        assert(!all_features(chain(t, input, key, i2)));
    }
}

} // verus!
