use compliance_registry::model::{Error, Event, ProofRecord};
use compliance_registry::registry::Pallet;

const ALICE: u64 = 1;
const BOB: u64 = 2;

fn proof_abc123() -> Vec<u8> {
    vec![b'a', b'b', b'c', b'1', b'2', b'3']
}

#[test]
fn scenario_create_then_revoke() {
    let mut pallet = Pallet::new();
    assert_eq!(pallet.create_compliance(ALICE, proof_abc123(), 10), Ok(()));
    assert_eq!(
        pallet.lookup(&proof_abc123()),
        Some(ProofRecord { owner: ALICE, created_at: 10 })
    );
    assert_eq!(
        pallet.create_compliance(BOB, proof_abc123(), 11),
        Err(Error::ProofAlreadyComplianced)
    );
    assert_eq!(
        pallet.revoke_compliance(BOB, proof_abc123()),
        Err(Error::NotProofOwner)
    );
    assert_eq!(pallet.revoke_compliance(ALICE, proof_abc123()), Ok(()));
    assert_eq!(pallet.lookup(&proof_abc123()), None);
    assert_eq!(
        pallet.revoke_compliance(ALICE, proof_abc123()),
        Err(Error::NoSuchProof)
    );
}

#[test]
fn duplicate_create_leaves_record_unchanged() {
    let mut pallet = Pallet::new();
    assert_eq!(pallet.create_compliance(ALICE, proof_abc123(), 10), Ok(()));
    assert_eq!(
        pallet.create_compliance(ALICE, proof_abc123(), 99),
        Err(Error::ProofAlreadyComplianced)
    );
    assert_eq!(
        pallet.create_compliance(BOB, proof_abc123(), 100),
        Err(Error::ProofAlreadyComplianced)
    );
    assert_eq!(
        pallet.lookup(&proof_abc123()),
        Some(ProofRecord { owner: ALICE, created_at: 10 })
    );
}

#[test]
fn revoke_by_non_owner_leaves_record_present() {
    let mut pallet = Pallet::new();
    assert_eq!(pallet.create_compliance(ALICE, proof_abc123(), 5), Ok(()));
    assert_eq!(
        pallet.revoke_compliance(BOB, proof_abc123()),
        Err(Error::NotProofOwner)
    );
    assert_eq!(
        pallet.lookup(&proof_abc123()),
        Some(ProofRecord { owner: ALICE, created_at: 5 })
    );
}

#[test]
fn round_trip_then_recreate_by_other_account() {
    let mut pallet = Pallet::new();
    assert_eq!(pallet.create_compliance(ALICE, proof_abc123(), 10), Ok(()));
    assert_eq!(pallet.revoke_compliance(ALICE, proof_abc123()), Ok(()));
    assert_eq!(pallet.lookup(&proof_abc123()), None);
    assert_eq!(pallet.create_compliance(BOB, proof_abc123(), 20), Ok(()));
    assert_eq!(
        pallet.lookup(&proof_abc123()),
        Some(ProofRecord { owner: BOB, created_at: 20 })
    );
}

#[test]
fn revoke_on_empty_registry_fails() {
    let mut pallet = Pallet::new();
    assert_eq!(
        pallet.revoke_compliance(ALICE, proof_abc123()),
        Err(Error::NoSuchProof)
    );
    assert_eq!(pallet.lookup(&proof_abc123()), None);
}

#[test]
fn events_match_successful_calls_only() {
    let mut pallet = Pallet::new();
    assert!(pallet.event_log().is_empty());
    assert_eq!(pallet.create_compliance(ALICE, proof_abc123(), 10), Ok(()));
    assert_eq!(pallet.event_log().len(), 1);
    assert_eq!(
        pallet.create_compliance(BOB, proof_abc123(), 11),
        Err(Error::ProofAlreadyComplianced)
    );
    assert_eq!(
        pallet.revoke_compliance(BOB, proof_abc123()),
        Err(Error::NotProofOwner)
    );
    assert_eq!(pallet.event_log().len(), 1);
    assert_eq!(pallet.revoke_compliance(ALICE, proof_abc123()), Ok(()));
    assert_eq!(
        pallet.event_log().as_slice(),
        &[
            Event::ComplianceCreated(ALICE, proof_abc123()),
            Event::ComplianceRevoked(ALICE, proof_abc123()),
        ]
    );
}

#[test]
fn empty_proof_is_a_valid_key() {
    let mut pallet = Pallet::new();
    let empty: Vec<u8> = vec![];
    assert_eq!(pallet.create_compliance(ALICE, empty.clone(), 1), Ok(()));
    assert_eq!(
        pallet.lookup(&empty),
        Some(ProofRecord { owner: ALICE, created_at: 1 })
    );
    assert_eq!(
        pallet.create_compliance(BOB, empty.clone(), 2),
        Err(Error::ProofAlreadyComplianced)
    );
    assert_eq!(pallet.revoke_compliance(ALICE, empty.clone()), Ok(()));
    assert_eq!(pallet.lookup(&empty), None);
}

#[test]
fn distinct_proofs_are_independent() {
    let mut pallet = Pallet::new();
    let first = vec![1u8, 2, 3];
    let second = vec![1u8, 2, 4];
    assert_eq!(pallet.create_compliance(ALICE, first.clone(), 7), Ok(()));
    assert_eq!(pallet.create_compliance(BOB, second.clone(), 8), Ok(()));
    assert_eq!(pallet.revoke_compliance(ALICE, first.clone()), Ok(()));
    assert_eq!(pallet.lookup(&first), None);
    assert_eq!(
        pallet.lookup(&second),
        Some(ProofRecord { owner: BOB, created_at: 8 })
    );
}

#[test]
fn keys_are_compared_byte_for_byte() {
    let mut pallet = Pallet::new();
    let long = vec![b'a', b'b', b'c'];
    let prefix = vec![b'a', b'b'];
    assert_eq!(pallet.create_compliance(ALICE, long.clone(), 3), Ok(()));
    assert_eq!(pallet.lookup(&prefix), None);
    assert_eq!(
        pallet.revoke_compliance(ALICE, prefix.clone()),
        Err(Error::NoSuchProof)
    );
    assert_eq!(pallet.create_compliance(BOB, prefix.clone(), 4), Ok(()));
    assert_eq!(
        pallet.lookup(&long),
        Some(ProofRecord { owner: ALICE, created_at: 3 })
    );
    assert_eq!(
        pallet.lookup(&prefix),
        Some(ProofRecord { owner: BOB, created_at: 4 })
    );
}
