//! The signed price payload: canonical encoding, construction, signing
//! through the node's keys, and pure verification.

use vstd::prelude::*;

use crate::crypto::{public_of, sig_valid, sr25519_public, sr25519_sign, sr25519_verify};
use crate::parser::DecimalPrice;

verus! {

/// The payload a node submits per tick: the parsed price, the submitter's
/// own public key, and the block height it was authored at. It carries its
/// public key so that verification needs no external key lookup.
#[derive(Clone, Copy, Debug)]
pub struct PricePayload {
    pub price: DecimalPrice,
    pub public: [u8; 32],
    pub authored_at: u64,
}

/// Byte-for-byte comparison of two 32-byte keys or account identifiers.
pub fn bytes32_eq(a: &[u8; 32], b: &[u8; 32]) -> (r: bool)
    ensures
        r == (*a == *b),
{
    let mut i: usize = 0;
    while i < 32
        invariant
            i <= 32,
            forall|j: int| 0 <= j < i ==> a@[j] == b@[j],
        decreases 32 - i,
    {
        if a[i] != b[i] {
            return false;
        }
        i = i + 1;
    }
    proof {
        assert(*a =~= *b);
    }
    true
}

impl PartialEq for PricePayload {
    fn eq(&self, other: &Self) -> (r: bool) {
        let pk_eq = bytes32_eq(&self.public, &other.public);
        self.price == other.price && pk_eq && self.authored_at == other.authored_at
    }
}

impl vstd::std_specs::cmp::PartialEqSpecImpl for PricePayload {
    open spec fn obeys_eq_spec() -> bool {
        true
    }

    open spec fn eq_spec(&self, other: &Self) -> bool {
        self.price == other.price && self.public == other.public && self.authored_at
            == other.authored_at
    }
}

/// Signing fails only when the key custody holds no key of the expected
/// type.
#[derive(Clone, Copy, PartialEq, Eq, Structural, Debug)]
pub enum SignError {
    NoKeyAvailable,
}

/// The canonical byte encoding of a payload, the exact message that is
/// signed and verified: whole part and authoring height as eight
/// little-endian bytes each, fraction as four, the public key in between.
pub open spec fn payload_bytes(p: PricePayload) -> Seq<u8> {
    vstd::bytes::spec_u64_to_le_bytes(p.price.whole)
        + vstd::bytes::spec_u32_to_le_bytes(p.price.fraction) + p.public@
        + vstd::bytes::spec_u64_to_le_bytes(p.authored_at)
}

/// Computes the canonical encoding of `p`.
pub fn encode_payload(p: &PricePayload) -> (r: Vec<u8>)
    ensures
        r@ == payload_bytes(*p),
{
    let mut out = vstd::bytes::u64_to_le_bytes(p.price.whole);
    let mut frac = vstd::bytes::u32_to_le_bytes(p.price.fraction);
    out.append(&mut frac);
    let ghost mid = out@;
    let mut i: usize = 0;
    while i < 32
        invariant
            i <= 32,
            out@ == mid + p.public@.take(i as int),
        decreases 32 - i,
    {
        out.push(p.public[i]);
        proof {
            assert(p.public@.take(i + 1) =~= p.public@.take(i as int).push(p.public@[i as int]));
        }
        i = i + 1;
    }
    proof {
        assert(p.public@.take(32) =~= p.public@);
    }
    let mut at = vstd::bytes::u64_to_le_bytes(p.authored_at);
    out.append(&mut at);
    proof {
        assert(out@ =~= payload_bytes(*p));
    }
    out
}

/// Pure construction of the payload, no side effects.
pub fn build(price: DecimalPrice, signer: [u8; 32], authored_at: u64) -> (r: PricePayload)
    ensures
        r == (PricePayload { price, public: signer, authored_at }),
{
    PricePayload { price, public: signer, authored_at }
}

/// The key-custody capability of enumerating local public keys: one derived
/// public key per held secret, in order.
pub fn public_keys(secrets: &Vec<[u8; 32]>) -> (r: Vec<[u8; 32]>)
    ensures
        r@.len() == secrets@.len(),
        forall|i: int| 0 <= i < r@.len() ==> #[trigger] r@[i]@ == public_of(secrets@[i]@),
{
    let mut out: Vec<[u8; 32]> = Vec::new();
    let mut i: usize = 0;
    while i < secrets.len()
        invariant
            i <= secrets@.len(),
            out@.len() == i,
            forall|j: int| 0 <= j < i ==> #[trigger] out@[j]@ == public_of(secrets@[j]@),
        decreases secrets@.len() - i,
    {
        let pk = sr25519_public(&secrets[i]);
        out.push(pk);
        i = i + 1;
    }
    out
}

/// Signs the canonical encoding of `payload` with the first held key; fails
/// with `NoKeyAvailable` exactly when no key is held. Every signature
/// returned is valid for the first key's public key over the payload's
/// encoding.
pub fn sign_payload(payload: &PricePayload, secrets: &Vec<[u8; 32]>) -> (r: Result<
    Vec<u8>,
    SignError,
>)
    ensures
        r is Err <==> secrets@.len() == 0,
        r is Err ==> r == Err::<Vec<u8>, SignError>(SignError::NoKeyAvailable),
        r matches Ok(sig) ==> sig@.len() == 64 && sig_valid(
            public_of(secrets@[0]@),
            payload_bytes(*payload),
            sig@,
        ),
{
    if secrets.len() == 0 {
        return Err(SignError::NoKeyAvailable);
    }
    let message = encode_payload(payload);
    let sig = sr25519_sign(&secrets[0], message.as_slice());
    Ok(sig)
}

/// What verification means: the signature is valid for the payload's own
/// public key over the payload's canonical encoding.
pub open spec fn verify_spec(p: PricePayload, sig: Seq<u8>) -> bool {
    sig_valid(p.public@, payload_bytes(p), sig)
}

/// Pure verification: recomputes the canonical encoding and checks the
/// signature against the payload's own public key. Returns false, never
/// fails, on any malformed signature, the empty one included.
pub fn verify_payload(payload: &PricePayload, signature: &[u8]) -> (r: bool)
    ensures
        r == verify_spec(*payload, signature@),
        signature@.len() != 64 ==> r == false,
{
    let message = encode_payload(payload);
    sr25519_verify(&payload.public, message.as_slice(), signature)
}

/// A correctly signed payload always verifies: whatever signature the
/// signer returned for a payload that embeds the signing key's own public
/// key is a signature that `verify_spec` accepts — so verification never
/// needs to know which key signed, only what the payload carries.
pub proof fn lemma_sign_then_verify(p: PricePayload, secret: Seq<u8>, sig: Seq<u8>)
    requires
        p.public@ == public_of(secret),
        sig_valid(public_of(secret), payload_bytes(p), sig),
    ensures
        verify_spec(p, sig),
{
}

} // verus!
