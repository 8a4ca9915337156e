//! The registry's data model and the mathematical description of its two
//! state transitions, `Create` and `Revoke`.
//!
//! The registry state is modelled as a `Map` from proof bytes to the record
//! of the attestation; the event log as a `Seq` of `EventModel` values. The
//! executable registry's contracts are stated over these spec functions.

use vstd::prelude::*;

verus! {

/// Identity of an account, as handed over by the host's authentication layer
/// once it has verified the call's signature.
pub type AccountId = u64;

/// Position in the host's globally ordered execution sequence (a block
/// height): a monotonically non-decreasing integer assigned by the host.
pub type BlockNumber = u64;

/// What the registry stores for a registered proof: the account that created
/// the record and the sequence number at creation time. Both are immutable
/// once set; a record is only ever removed whole, never updated in place.
#[derive(Clone, Copy, PartialEq, Eq, Structural, Debug)]
pub struct ProofRecord {
    pub owner: AccountId,
    pub created_at: BlockNumber,
}

/// The ways an operation can fail. Every failure is detected before any
/// mutation, so a failing call leaves the registry and the event log
/// unchanged.
#[derive(Clone, Copy, PartialEq, Eq, Structural, Debug)]
pub enum Error {
    /// Creation was attempted on a proof that is already registered.
    ProofAlreadyComplianced,
    /// Revocation was attempted on a proof that is not registered.
    NoSuchProof,
    /// Revocation was attempted by an account other than the recorded owner.
    NotProofOwner,
}

/// Domain events: exactly one is emitted by each successful operation,
/// carrying the acting account and the exact proof bytes.
#[derive(PartialEq, Eq, Debug)]
pub enum Event {
    /// A proof was registered.
    ComplianceCreated(AccountId, Vec<u8>),
    /// A proof was revoked by its owner.
    ComplianceRevoked(AccountId, Vec<u8>),
}

/// The mathematical shape of an `Event`, with the proof bytes as a sequence.
pub enum EventModel {
    ComplianceCreated(AccountId, Seq<u8>),
    ComplianceRevoked(AccountId, Seq<u8>),
}

impl View for Event {
    type V = EventModel;

    open spec fn view(&self) -> EventModel {
        match self {
            Event::ComplianceCreated(who, p) => EventModel::ComplianceCreated(*who, p@),
            Event::ComplianceRevoked(who, p) => EventModel::ComplianceRevoked(*who, p@),
        }
    }
}

/// The registry's state: a map from proof bytes to the record of the
/// attestation. A key is present iff the proof has been created and not
/// subsequently revoked.
pub type RegistryMap = Map<Seq<u8>, ProofRecord>;

/// What `Create` answers on a registry in state `m`: it fails iff the proof
/// is already registered.
pub open spec fn create_result(m: RegistryMap, proof_bytes: Seq<u8>) -> Result<(), Error> {
    if m.contains_key(proof_bytes) {
        Err(Error::ProofAlreadyComplianced)
    } else {
        Ok(())
    }
}

/// The registry state after `Create`: one new record on success, the old
/// state unchanged on failure.
pub open spec fn create_state(
    m: RegistryMap,
    caller: AccountId,
    proof_bytes: Seq<u8>,
    now: BlockNumber,
) -> RegistryMap {
    if m.contains_key(proof_bytes) {
        m
    } else {
        m.insert(proof_bytes, ProofRecord { owner: caller, created_at: now })
    }
}

/// The event log after `Create`: exactly one `ComplianceCreated` event is
/// appended on success, none on failure.
pub open spec fn create_events(
    es: Seq<EventModel>,
    m: RegistryMap,
    caller: AccountId,
    proof_bytes: Seq<u8>,
) -> Seq<EventModel> {
    if create_result(m, proof_bytes) is Ok {
        es.push(EventModel::ComplianceCreated(caller, proof_bytes))
    } else {
        es
    }
}

/// What `Revoke` answers on a registry in state `m`: it fails iff the proof
/// is not registered or the caller is not the recorded owner.
pub open spec fn revoke_result(
    m: RegistryMap,
    caller: AccountId,
    proof_bytes: Seq<u8>,
) -> Result<(), Error> {
    if !m.contains_key(proof_bytes) {
        Err(Error::NoSuchProof)
    } else if m[proof_bytes].owner != caller {
        Err(Error::NotProofOwner)
    } else {
        Ok(())
    }
}

/// The registry state after `Revoke`: the record is removed whole on
/// success, the old state unchanged on failure.
pub open spec fn revoke_state(
    m: RegistryMap,
    caller: AccountId,
    proof_bytes: Seq<u8>,
) -> RegistryMap {
    if revoke_result(m, caller, proof_bytes) is Ok {
        m.remove(proof_bytes)
    } else {
        m
    }
}

/// The event log after `Revoke`: exactly one `ComplianceRevoked` event is
/// appended on success, none on failure.
pub open spec fn revoke_events(
    es: Seq<EventModel>,
    m: RegistryMap,
    caller: AccountId,
    proof_bytes: Seq<u8>,
) -> Seq<EventModel> {
    if revoke_result(m, caller, proof_bytes) is Ok {
        es.push(EventModel::ComplianceRevoked(caller, proof_bytes))
    } else {
        es
    }
}

} // verus!
