//! PKCE proof-of-possession material: a random code verifier and its
//! derived challenge.
//!
//! The verifier is only ever sent to the token endpoint; the
//! authorization request carries the challenge alone, so a party that
//! intercepts the authorization code cannot complete the exchange.

use vstd::prelude::*;

use crate::codec::{
    b64url, base64url_encode, is_unreserved, lemma_b64url_len, lemma_b64url_unreserved,
};
use crate::errors::AuthError;

verus! {

/// The SHA-256 digest of a byte sequence.  The digest is a function of
/// the input alone; its value is not modelled here.
pub uninterp spec fn sha256_of(s: Seq<u8>) -> Seq<u8>;

/// Relies on sha2::Sha256 through digest::Digest::digest: the SHA-256
/// digest is 32 bytes and depends on the input bytes alone.
#[verifier::external_body]
fn sha256(input: &[u8]) -> (r: Vec<u8>)
    ensures
        r@ == sha256_of(input@),
        r@.len() == 32,
{
    let d = <sha2::Sha256 as sha2::Digest>::digest(input);
    d.to_vec()
}

/// Relies on getrandom::fill: on success the buffer is fully
/// overwritten with bytes from the operating system's secure random
/// source; it fails only when no such source is available.  Nothing is
/// assumed about the values.
#[verifier::external_body]
fn random_bytes(n: usize) -> (r: Option<Vec<u8>>)
    ensures
        (r matches Some(v) ==> v@.len() == n),
{
    let mut buf = vec![0u8; n];
    match getrandom::fill(&mut buf) {
        Ok(()) => Some(buf),
        Err(_) => None,
    }
}

/// A valid PKCE code verifier: 43 to 128 characters, all from the
/// URL-safe (RFC 3986 unreserved) set.
pub open spec fn valid_verifier(v: Seq<u8>) -> bool {
    43 <= v.len() <= 128 && forall|i: int| 0 <= i < v.len() ==> is_unreserved(#[trigger] v[i])
}

/// The challenge derived from a verifier: the base64url encoding,
/// without padding, of the verifier's SHA-256 digest.
pub open spec fn challenge_of(v: Seq<u8>) -> Seq<u8> {
    b64url(sha256_of(v))
}

/// Derive the code challenge from a verifier.  The result is a pure
/// function of the verifier: 43 URL-safe characters.
pub fn derive_challenge(verifier: &[u8]) -> (r: Vec<u8>)
    ensures
        r@ == challenge_of(verifier@),
        r@.len() == 43,
        forall|i: int| 0 <= i < r@.len() ==> is_unreserved(#[trigger] r@[i]),
{
    let digest = sha256(verifier);
    proof {
        lemma_b64url_len(digest@);
        lemma_b64url_unreserved(digest@);
    }
    base64url_encode(digest.as_slice())
}

/// The challenge is a deterministic pure function of the verifier:
/// deriving it again from the same verifier gives the same challenge.
pub proof fn lemma_challenge_deterministic(v1: Seq<u8>, v2: Seq<u8>)
    requires
        v1 == v2,
    ensures
        challenge_of(v1) == challenge_of(v2),
{
}

/// PKCE material for one flow attempt.
#[derive(Debug)]
pub struct PkceParameters {
    /// The random code verifier.
    pub verifier: Vec<u8>,
    /// The derived code challenge.
    pub challenge: Vec<u8>,
}

impl PkceParameters {
    /// Well-formed material: a valid verifier carrying its own derived
    /// challenge.
    pub open spec fn wf(&self) -> bool {
        valid_verifier(self.verifier@) && self.challenge@ == challenge_of(self.verifier@)
    }

    /// Generate fresh material: the verifier is the base64url encoding
    /// of 32 bytes from the secure random source (43 characters), and
    /// the challenge is derived from it.  Fails only if no secure
    /// randomness source is available.
    pub fn generate() -> (r: Result<PkceParameters, AuthError>)
        ensures
            (r matches Ok(p) ==> p.wf() && p.verifier@.len() == 43),
            (r matches Err(e) ==> e == AuthError::RandomnessError),
    {
        match random_bytes(32) {
            Some(seed) => {
                proof {
                    lemma_b64url_len(seed@);
                    lemma_b64url_unreserved(seed@);
                }
                let verifier = base64url_encode(seed.as_slice());
                let challenge = derive_challenge(verifier.as_slice());
                Ok(PkceParameters { verifier, challenge })
            },
            None => Err(AuthError::RandomnessError),
        }
    }
}

/// Generate a fresh anti-forgery state nonce: the base64url encoding of
/// 16 bytes from the secure random source (22 URL-safe characters).
/// Fails only if no secure randomness source is available.
pub fn generate_nonce() -> (r: Result<Vec<u8>, AuthError>)
    ensures
        (r matches Ok(v) ==> v@.len() == 22 && forall|i: int|
            0 <= i < v@.len() ==> is_unreserved(#[trigger] v@[i])),
        (r matches Err(e) ==> e == AuthError::RandomnessError),
{
    match random_bytes(16) {
        Some(seed) => {
            proof {
                lemma_b64url_len(seed@);
                lemma_b64url_unreserved(seed@);
            }
            Ok(base64url_encode(seed.as_slice()))
        },
        None => Err(AuthError::RandomnessError),
    }
}

} // verus!
