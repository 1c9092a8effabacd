//! The on-chain submission gate: a submitted payload moves from pending to
//! accepted or rejected; only a payload with a valid signature from the
//! allow-listed price provider overwrites the stored price.
//!
//! Deliberately absent: a staleness check against `authored_at`. An old but
//! validly signed payload is accepted again and overwrites a newer price;
//! accept-if-signed-and-authorized with no ordering is the intended minimal
//! design, so callers who need replay protection must add it outside.

use vstd::prelude::*;

use crate::parser::DecimalPrice;
use crate::signer::{bytes32_eq, verify_payload, verify_spec, PricePayload};

verus! {

/// Why a submission was discarded: the first failing rule wins, the
/// signature check coming before the provider check.
#[derive(Clone, Copy, PartialEq, Eq, Structural, Debug)]
pub enum RejectReason {
    InvalidSignature,
    UnauthorizedSubmitter,
}

/// The verdict on one submission.
#[derive(Clone, Copy, PartialEq, Eq, Structural, Debug)]
pub enum SubmitOutcome {
    Accepted,
    Rejected(RejectReason),
}

/// The persistent state the submission gate owns: the single allow-listed provider
/// account, and the last accepted price. Neither is set at genesis.
#[derive(Clone, Copy, Debug)]
pub struct Gate {
    pub provider: Option<[u8; 32]>,
    pub stored: Option<DecimalPrice>,
}

/// The account identifier a public key stands for: the key's own bytes.
pub open spec fn spec_account_of(public: [u8; 32]) -> [u8; 32] {
    public
}

/// Whether `public` belongs to the currently allow-listed provider.
pub open spec fn spec_authorized(g: Gate, public: [u8; 32]) -> bool {
    match g.provider {
        Some(account) => account == spec_account_of(public),
        None => false,
    }
}

/// The verdict the submission gate reaches on `p` with `sig`, rules in order: a bad
/// signature rejects, then an unauthorized submitter rejects, else accept.
pub open spec fn gate_verdict(g: Gate, p: PricePayload, sig: Seq<u8>) -> SubmitOutcome {
    if !verify_spec(p, sig) {
        SubmitOutcome::Rejected(RejectReason::InvalidSignature)
    } else if !spec_authorized(g, p.public) {
        SubmitOutcome::Rejected(RejectReason::UnauthorizedSubmitter)
    } else {
        SubmitOutcome::Accepted
    }
}

/// The state after one submission: acceptance overwrites the stored price,
/// last write wins; rejection changes nothing.
pub open spec fn gate_after(g: Gate, p: PricePayload, sig: Seq<u8>) -> Gate {
    if gate_verdict(g, p, sig) == SubmitOutcome::Accepted {
        Gate { provider: g.provider, stored: Some(p.price) }
    } else {
        g
    }
}

impl Gate {
    /// Genesis state: no provider allow-listed, no price stored.
    pub fn new() -> (r: Gate)
        ensures
            r == (Gate { provider: None, stored: None }),
    {
        Gate { provider: None, stored: None }
    }

    /// The storage write for the provider allow-list. The admin capability
    /// check that gates it is performed by the surrounding system.
    pub fn set_price_provider(&mut self, account: [u8; 32])
        ensures
            (*final(self) == Gate { provider: Some(account), stored: old(self).stored }),
    {
        self.provider = Some(account);
    }

    /// The storage write for the price. The admin capability check that
    /// gates direct writes is performed by the surrounding system; acceptance
    /// writes through here.
    pub fn set_price(&mut self, price: DecimalPrice)
        ensures
            (*final(self) == Gate { provider: old(self).provider, stored: Some(price) }),
    {
        self.stored = Some(price);
    }

    /// Judges one submission and commits the price exactly on acceptance:
    /// the verdict is `gate_verdict`, the new state `gate_after`.
    pub fn submit(&mut self, payload: &PricePayload, signature: &[u8]) -> (r: SubmitOutcome)
        ensures
            r == gate_verdict(*old(self), *payload, signature@),
            *final(self) == gate_after(*old(self), *payload, signature@),
    {
        if !verify_payload(payload, signature) {
            return SubmitOutcome::Rejected(RejectReason::InvalidSignature);
        }
        let authorized = match &self.provider {
            Some(account) => bytes32_eq(account, &payload.public),
            None => false,
        };
        if !authorized {
            return SubmitOutcome::Rejected(RejectReason::UnauthorizedSubmitter);
        }
        self.set_price(payload.price);
        SubmitOutcome::Accepted
    }
}

/// A payload whose signature does not check is rejected as
/// `InvalidSignature`, whoever the provider is, and the state is unchanged.
pub proof fn lemma_tampered_signature_rejected(g: Gate, p: PricePayload, sig: Seq<u8>)
    requires
        !verify_spec(p, sig),
    ensures
        gate_verdict(g, p, sig) == SubmitOutcome::Rejected(RejectReason::InvalidSignature),
        gate_after(g, p, sig) == g,
{
}

/// A validly signed payload from a key other than the provider's is
/// rejected as `UnauthorizedSubmitter`, and the state is unchanged.
pub proof fn lemma_unauthorized_submitter_rejected(g: Gate, p: PricePayload, sig: Seq<u8>)
    requires
        verify_spec(p, sig),
        !spec_authorized(g, p.public),
    ensures
        gate_verdict(g, p, sig) == SubmitOutcome::Rejected(RejectReason::UnauthorizedSubmitter),
        gate_after(g, p, sig) == g,
{
}

/// A validly signed payload from the allow-listed provider is accepted and
/// its price committed.
pub proof fn lemma_authorized_submission_accepted(g: Gate, p: PricePayload, sig: Seq<u8>)
    requires
        verify_spec(p, sig),
        spec_authorized(g, p.public),
    ensures
        gate_verdict(g, p, sig) == SubmitOutcome::Accepted,
        gate_after(g, p, sig) == (Gate { provider: g.provider, stored: Some(p.price) }),
{
}

/// Accepting the same authorized payload twice in a row is idempotent: both
/// submissions are accepted, the stored price equals the submitted price
/// after each, and the second acceptance changes nothing.
pub proof fn lemma_resubmission_idempotent(g: Gate, p: PricePayload, sig: Seq<u8>)
    requires
        verify_spec(p, sig),
        spec_authorized(g, p.public),
    ensures
        gate_verdict(g, p, sig) == SubmitOutcome::Accepted,
        gate_after(g, p, sig).stored == Some(p.price),
        gate_verdict(gate_after(g, p, sig), p, sig) == SubmitOutcome::Accepted,
        gate_after(gate_after(g, p, sig), p, sig) == gate_after(g, p, sig),
{
}

} // verus!
