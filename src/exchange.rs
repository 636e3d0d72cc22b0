//! Diffie-Hellman parameters, private-scalar selection and the derivation
//! of public values and of the shared secret.

use crate::modexp::{lemma_dh_agreement, mod_pow, pow_mod};
use vstd::prelude::*;

verus! {

/// The fixed 64-bit prime modulus shared by both peers.
pub const P: u64 = 0xD87FA3E291B4C7F3;

/// The fixed generator shared by both peers.
pub const G: u64 = 2;

/// Group parameters: a modulus and a generator.
#[derive(Clone, Copy, Debug, PartialEq, Eq, Structural)]
pub struct DhParams {
    pub p: u64,
    pub g: u64,
}

impl DhParams {
    /// Parameters are usable when the modulus exceeds one.
    pub open spec fn wf(&self) -> bool {
        self.p > 1
    }

    /// The hardcoded parameters both peers use.
    pub fn standard() -> (r: DhParams)
        ensures
            r.p == P,
            r.g == G,
            r.wf(),
    {
        DhParams { p: P, g: G }
    }
}

/// Whether `k` may serve as a private scalar: it is not a multiple of `p`.
pub open spec fn is_valid_private(params: DhParams, k: u64) -> bool {
    k % params.p != 0
}

/// A private scalar and the public value derived from it.
#[derive(Clone, Copy, Debug, PartialEq, Eq, Structural)]
pub struct KeyPair {
    pub private: u64,
    pub public: u64,
}

impl KeyPair {
    /// The key pair is consistent with `params`.
    pub open spec fn wf(&self, params: DhParams) -> bool {
        &&& is_valid_private(params, self.private)
        &&& self.public as int == mod_pow(params.g as int, self.private as nat, params.p as int)
    }

    /// Builds the key pair of a private scalar, refusing a multiple of `p`.
    pub fn from_private(params: DhParams, private: u64) -> (r: Option<KeyPair>)
        requires
            params.wf(),
        ensures
            r.is_some() == is_valid_private(params, private),
            r matches Some(kp) ==> kp.private == private && kp.wf(params),
    {
        match accept_private_key(params, private) {
            Some(k) => Some(KeyPair { private: k, public: public_value(params, k) }),
            None => None,
        }
    }
}

/// Relies on rand::random::<u64>, which draws from the thread-local
/// generator; nothing is known of the value drawn.
#[verifier::external_body]
fn random_u64() -> (r: u64) {
    rand::random::<u64>()
}

/// Keeps a candidate private scalar unless it is a multiple of `p`.
pub fn accept_private_key(params: DhParams, candidate: u64) -> (r: Option<u64>)
    requires
        params.wf(),
    ensures
        r == (if is_valid_private(params, candidate) { Some(candidate) } else { None::<u64> }),
{
    if candidate % params.p != 0 {
        Some(candidate)
    } else {
        None
    }
}

/// Draws one uniformly random 64-bit candidate and keeps it unless it is a
/// multiple of `p`; a caller draws again on `None`.
pub fn draw_private_key(params: DhParams) -> (r: Option<u64>)
    requires
        params.wf(),
    ensures
        r matches Some(k) ==> is_valid_private(params, k),
{
    accept_private_key(params, random_u64())
}

/// Draws one candidate and builds its key pair; `None` where the draw is a
/// multiple of `p`.
pub fn draw_key_pair(params: DhParams) -> (r: Option<KeyPair>)
    requires
        params.wf(),
    ensures
        r matches Some(kp) ==> kp.wf(params),
{
    match draw_private_key(params) {
        Some(k) => KeyPair::from_private(params, k),
        None => None,
    }
}

/// The public value of a private scalar: `g^private mod p`.
pub fn public_value(params: DhParams, private: u64) -> (r: u64)
    requires
        params.wf(),
    ensures
        r as int == mod_pow(params.g as int, private as nat, params.p as int),
{
    pow_mod(params.g, private, params.p)
}

/// The shared secret: `peer_public^private mod p`.
pub fn shared_secret(params: DhParams, peer_public: u64, private: u64) -> (r: u64)
    requires
        params.wf(),
    ensures
        r as int == mod_pow(peer_public as int, private as nat, params.p as int),
{
    pow_mod(peer_public, private, params.p)
}

/// Two peers holding consistent key pairs derive the same shared secret,
/// each from the other's public value and its own private scalar.
pub proof fn lemma_key_agreement(params: DhParams, a: KeyPair, b: KeyPair)
    requires
        params.wf(),
        a.wf(params),
        b.wf(params),
    ensures
        mod_pow(a.public as int, b.private as nat, params.p as int)
            == mod_pow(b.public as int, a.private as nat, params.p as int),
{
    lemma_dh_agreement(params.g as int, a.private as nat, b.private as nat, params.p as int);
}

} // verus!
