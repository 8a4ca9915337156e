//! The registry's laws, stated over the transition functions of
//! [`crate::model`] and proved once for every registry state. The
//! executable operations in [`crate::registry`] are verified against those
//! same transition functions, so each law carries over to them.

use vstd::prelude::*;

use crate::model::{
    create_events, create_result, create_state, revoke_events, revoke_result, revoke_state,
    AccountId, BlockNumber, Error, EventModel, ProofRecord, RegistryMap,
};

verus! {

/// Uniqueness: after a successful `Create` of a proof, a second `Create` of
/// the same proof by any account fails with `ProofAlreadyComplianced`, and
/// the stored owner and creation sequence number are unchanged.
pub proof fn lemma_create_uniqueness(
    m: RegistryMap,
    first: AccountId,
    first_at: BlockNumber,
    second: AccountId,
    second_at: BlockNumber,
    proof_bytes: Seq<u8>,
)
    requires
        create_result(m, proof_bytes) is Ok,
    ensures
        ({
            let m1 = create_state(m, first, proof_bytes, first_at);
            &&& create_result(m1, proof_bytes) == Err::<(), Error>(Error::ProofAlreadyComplianced)
            &&& create_state(m1, second, proof_bytes, second_at) == m1
            &&& m1[proof_bytes] == (ProofRecord { owner: first, created_at: first_at })
        }),
{
}

/// Ownership gate: while a proof is registered to an account, `Revoke` by
/// any other account fails with `NotProofOwner` and the proof remains
/// present with the same owner and creation sequence number.
pub proof fn lemma_ownership_gate(m: RegistryMap, other: AccountId, proof_bytes: Seq<u8>)
    requires
        m.contains_key(proof_bytes),
        m[proof_bytes].owner != other,
    ensures
        revoke_result(m, other, proof_bytes) == Err::<(), Error>(Error::NotProofOwner),
        revoke_state(m, other, proof_bytes) == m,
{
}

/// Lifecycle round trip: on a proof not yet registered, `Create` succeeds,
/// `Revoke` by the owner then succeeds and leaves the proof absent with the
/// registry as it was, and a further `Create` by any account (the same or
/// another) succeeds and establishes the new owner and sequence number.
pub proof fn lemma_lifecycle_round_trip(
    m: RegistryMap,
    owner: AccountId,
    created_at: BlockNumber,
    next_owner: AccountId,
    next_at: BlockNumber,
    proof_bytes: Seq<u8>,
)
    requires
        !m.contains_key(proof_bytes),
    ensures
        ({
            let m1 = create_state(m, owner, proof_bytes, created_at);
            let m2 = revoke_state(m1, owner, proof_bytes);
            let m3 = create_state(m2, next_owner, proof_bytes, next_at);
            &&& create_result(m, proof_bytes) is Ok
            &&& revoke_result(m1, owner, proof_bytes) is Ok
            &&& !m2.contains_key(proof_bytes)
            &&& m2 == m
            &&& create_result(m2, proof_bytes) is Ok
            &&& m3[proof_bytes] == (ProofRecord { owner: next_owner, created_at: next_at })
        }),
{
    let m1 = create_state(m, owner, proof_bytes, created_at);
    let m2 = revoke_state(m1, owner, proof_bytes);
    assert(m2 =~= m);
}

/// Absence gate: `Revoke` of a proof that was never created, or was already
/// revoked, fails with `NoSuchProof` for every caller and changes nothing.
pub proof fn lemma_absence_gate(m: RegistryMap, caller: AccountId, proof_bytes: Seq<u8>)
    requires
        !m.contains_key(proof_bytes),
    ensures
        revoke_result(m, caller, proof_bytes) == Err::<(), Error>(Error::NoSuchProof),
        revoke_state(m, caller, proof_bytes) == m,
{
}

/// Event correspondence: a successful `Create` appends exactly one
/// `ComplianceCreated` event carrying the acting account and the exact
/// proof bytes, a successful `Revoke` likewise one `ComplianceRevoked`
/// event, and a failed call appends none.
pub proof fn lemma_event_correspondence(
    es: Seq<EventModel>,
    m: RegistryMap,
    caller: AccountId,
    proof_bytes: Seq<u8>,
)
    ensures
        create_result(m, proof_bytes) is Ok ==> ({
            let es1 = create_events(es, m, caller, proof_bytes);
            &&& es1.len() == es.len() + 1
            &&& es1.last() == EventModel::ComplianceCreated(caller, proof_bytes)
            &&& es1.take(es.len() as int) == es
        }),
        create_result(m, proof_bytes) is Err ==> create_events(es, m, caller, proof_bytes) == es,
        revoke_result(m, caller, proof_bytes) is Ok ==> ({
            let es1 = revoke_events(es, m, caller, proof_bytes);
            &&& es1.len() == es.len() + 1
            &&& es1.last() == EventModel::ComplianceRevoked(caller, proof_bytes)
            &&& es1.take(es.len() as int) == es
        }),
        revoke_result(m, caller, proof_bytes) is Err ==> revoke_events(es, m, caller, proof_bytes)
            == es,
{
    if create_result(m, proof_bytes) is Ok {
        assert(create_events(es, m, caller, proof_bytes).take(es.len() as int) =~= es);
    }
    if revoke_result(m, caller, proof_bytes) is Ok {
        assert(revoke_events(es, m, caller, proof_bytes).take(es.len() as int) =~= es);
    }
}

} // verus!
