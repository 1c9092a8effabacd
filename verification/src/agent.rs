//! The per-tick agent: judge the fetched response, parse the price, pick the
//! first locally held key, and produce one signed payload for submission.
//! At most one payload per invocation; a failed fetch produces none.

use vstd::prelude::*;

use crate::crypto::public_of;
use crate::fetch::{fetch_price, fetch_spec, FetchError, NetworkError};
use crate::signer::{build, public_keys, sign_payload, verify_spec, PricePayload};

verus! {

/// Why a tick ended without a submission: the fetch failed, or no local key
/// of the expected type exists.
#[derive(Clone, Copy, PartialEq, Eq, Structural, Debug)]
pub enum TickError {
    Fetch(FetchError),
    NoLocalKeys,
}

/// One tick of the agent, from the transport's outcome to the signed
/// submission. A transport failure or a bad response yields no submission;
/// otherwise the payload carries the parsed price, the public key of the
/// first held secret, and the authoring height, and its signature verifies
/// against that key over the payload's canonical encoding.
pub fn run_tick(
    response: Result<(u16, Vec<u8>), NetworkError>,
    secrets: &Vec<[u8; 32]>,
    height: u64,
) -> (r: Result<(PricePayload, Vec<u8>), TickError>)
    ensures
        response matches Err(e) ==> r == Err::<(PricePayload, Vec<u8>), TickError>(
            TickError::Fetch(FetchError::Network(e)),
        ),
        response matches Ok(resp) ==> match fetch_spec(resp.0, resp.1@) {
            Err(fe) => r == Err::<(PricePayload, Vec<u8>), TickError>(TickError::Fetch(fe)),
            Ok(price) => if secrets@.len() == 0 {
                r == Err::<(PricePayload, Vec<u8>), TickError>(TickError::NoLocalKeys)
            } else {
                r matches Ok(out) && out.0.price == price && out.0.price.wf()
                    && out.0.public@ == public_of(secrets@[0]@) && out.0.authored_at == height
                    && out.1@.len() == 64 && verify_spec(out.0, out.1@)
            },
        },
{
    let (status, body) = match response {
        Err(e) => {
            return Err(TickError::Fetch(FetchError::Network(e)));
        },
        Ok(resp) => resp,
    };
    let price = match fetch_price(status, body.as_slice()) {
        Err(fe) => {
            return Err(TickError::Fetch(fe));
        },
        Ok(p) => p,
    };
    let keys = public_keys(secrets);
    if keys.len() == 0 {
        return Err(TickError::NoLocalKeys);
    }
    let payload = build(price, keys[0], height);
    match sign_payload(&payload, secrets) {
        Err(_) => Err(TickError::NoLocalKeys),
        Ok(sig) => Ok((payload, sig)),
    }
}

} // verus!
