//! Trusted boundary to the sr25519 signature scheme. The library never
//! restates the scheme itself: what a signature check returns is given a
//! name, and the schnorrkel crate computes it.

use vstd::prelude::*;

verus! {

/// Whether `signature` is a valid sr25519 signature by `public` over
/// `message` under the signing context this library uses. The outcome is a
/// function of the three byte strings alone.
pub uninterp spec fn sig_valid(public: Seq<u8>, message: Seq<u8>, signature: Seq<u8>) -> bool;

/// The sr25519 public key derived from a 32-byte mini secret key; the
/// derivation is deterministic.
pub uninterp spec fn public_of(secret: Seq<u8>) -> Seq<u8>;

/// Relies on schnorrkel's `MiniSecretKey::from_bytes` (always succeeds on 32
/// bytes) and `expand_to_keypair` with Ed25519 expansion: the public key is a
/// deterministic function of the secret bytes alone.
#[verifier::external_body]
pub(crate) fn sr25519_public(secret: &[u8; 32]) -> (r: [u8; 32])
    ensures
        r@ == public_of(secret@),
{
    let mini = schnorrkel::MiniSecretKey::from_bytes(&secret[..]).unwrap();
    mini.expand_to_keypair(schnorrkel::ExpansionMode::Ed25519).public.to_bytes()
}

/// Relies on schnorrkel's `Keypair::sign_simple`: though the nonce is
/// randomized, every signature it returns satisfies the scheme's
/// verification equation for the keypair's public key, the same context and
/// the same message, and `Signature::to_bytes` is the 64-byte form that
/// `Signature::from_bytes` accepts.
#[verifier::external_body]
pub(crate) fn sr25519_sign(secret: &[u8; 32], message: &[u8]) -> (r: Vec<u8>)
    ensures
        r@.len() == 64,
        sig_valid(public_of(secret@), message@, r@),
{
    let mini = schnorrkel::MiniSecretKey::from_bytes(&secret[..]).unwrap();
    let keypair = mini.expand_to_keypair(schnorrkel::ExpansionMode::Ed25519);
    keypair.sign_simple(b"substrate", message).to_bytes().to_vec()
}

/// Relies on schnorrkel's `PublicKey::verify_simple` under the same context
/// as signing. `PublicKey::from_bytes` and `Signature::from_bytes` reject
/// malformed inputs, in particular any signature that is not 64 bytes long,
/// and rejection means no signature is accepted. The outcome depends on the
/// three byte strings alone.
#[verifier::external_body]
pub(crate) fn sr25519_verify(public: &[u8; 32], message: &[u8], signature: &[u8]) -> (r: bool)
    ensures
        r == sig_valid(public@, message@, signature@),
        signature@.len() != 64 ==> r == false,
{
    let p = match schnorrkel::PublicKey::from_bytes(&public[..]) {
        Ok(p) => p,
        Err(_) => return false,
    };
    let s = match schnorrkel::Signature::from_bytes(signature) {
        Ok(s) => s,
        Err(_) => return false,
    };
    p.verify_simple(b"substrate", message, &s).is_ok()
}

} // verus!
