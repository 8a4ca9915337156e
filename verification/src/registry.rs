//! The executable registry: a keyed store of proof records together with the
//! log of emitted events, verified against the transition functions of
//! [`crate::model`].
//!
//! The store is a vector of entries with pairwise distinct keys; its
//! mathematical content is the map [`Pallet::proofs_map`]. Each operation
//! either fully applies its one insertion or removal and appends its one
//! event, or fails before any mutation and leaves both untouched.

use vstd::map::*;
use vstd::prelude::*;

use crate::model::{
    create_events, create_result, create_state, revoke_events, revoke_result, revoke_state,
    AccountId, BlockNumber, Error, Event, EventModel, ProofRecord, RegistryMap,
};

verus! {

/// One stored attestation: the proof bytes under which it is keyed and the
/// record for them.
struct Entry {
    proof_bytes: Vec<u8>,
    record: ProofRecord,
}

/// The key stored at position `i`.
spec fn key_of(entries: Seq<Entry>, i: int) -> Seq<u8> {
    entries[i].proof_bytes@
}

/// Whether the entries carry pairwise distinct keys.
spec fn keys_unique(entries: Seq<Entry>) -> bool {
    forall|i: int, j: int|
        0 <= i < j < entries.len() ==> key_of(entries, i) != key_of(entries, j)
}

/// Whether some entry carries the key `k`.
spec fn has_key(entries: Seq<Entry>, k: Seq<u8>) -> bool {
    exists|i: int| 0 <= i < entries.len() && key_of(entries, i) == k
}

/// The position of the entry carrying the key `k`, where one exists.
spec fn position_of(entries: Seq<Entry>, k: Seq<u8>) -> int {
    choose|i: int| 0 <= i < entries.len() && key_of(entries, i) == k
}

/// The entries read as a map from key to record.
spec fn map_of(entries: Seq<Entry>) -> RegistryMap {
    Map::new(
        |k: Seq<u8>| has_key(entries, k),
        |k: Seq<u8>| entries[position_of(entries, k)].record,
    )
}

/// With pairwise distinct keys, the map holds exactly the record stored at
/// each position.
proof fn lemma_map_of_at(entries: Seq<Entry>, i: int)
    requires
        keys_unique(entries),
        0 <= i < entries.len(),
    ensures
        map_of(entries).contains_key(key_of(entries, i)),
        map_of(entries)[key_of(entries, i)] == entries[i].record,
{
    let k = key_of(entries, i);
    assert(has_key(entries, k));
    let j = position_of(entries, k);
    assert(0 <= j < entries.len() && key_of(entries, j) == k);
    if i < j {
        assert(key_of(entries, i) != key_of(entries, j));
    } else if j < i {
        assert(key_of(entries, j) != key_of(entries, i));
    }
}

/// Appending an entry under a fresh key keeps the keys distinct and adds
/// exactly that binding to the map.
proof fn lemma_map_of_push(entries: Seq<Entry>, e: Entry)
    requires
        keys_unique(entries),
        !has_key(entries, e.proof_bytes@),
    ensures
        keys_unique(entries.push(e)),
        map_of(entries.push(e)) == map_of(entries).insert(e.proof_bytes@, e.record),
{
    let s2 = entries.push(e);
    let n = entries.len() as int;
    assert forall|i: int, j: int| 0 <= i < j < s2.len() implies key_of(s2, i) != key_of(
        s2,
        j,
    ) by {
        if j == n {
            assert(key_of(s2, i) == key_of(entries, i));
            if key_of(entries, i) == e.proof_bytes@ {
                assert(has_key(entries, e.proof_bytes@));
            }
        } else {
            assert(key_of(s2, i) == key_of(entries, i));
            assert(key_of(s2, j) == key_of(entries, j));
        }
    };
    let m1 = map_of(entries).insert(e.proof_bytes@, e.record);
    let m2 = map_of(s2);
    assert_maps_equal!(m2, m1, k => {
        if m1.contains_key(k) {
            if k == e.proof_bytes@ {
                assert(key_of(s2, n) == k);
            } else {
                let i = position_of(entries, k);
                assert(key_of(s2, i) == k);
            }
            assert(m2.contains_key(k));
        }
        if m2.contains_key(k) {
            let i = position_of(s2, k);
            assert(0 <= i < s2.len() && key_of(s2, i) == k);
            lemma_map_of_at(s2, i);
            if i == n {
                assert(k == e.proof_bytes@);
                assert(m2[k] == e.record);
            } else {
                assert(s2[i] == entries[i]);
                assert(key_of(entries, i) == k);
                if k == e.proof_bytes@ {
                    assert(has_key(entries, e.proof_bytes@));
                }
                lemma_map_of_at(entries, i);
            }
            assert(m1.contains_key(k));
            assert(m2[k] == m1[k]);
        }
    });
}

/// Removing the entry at a position keeps the keys distinct and removes
/// exactly that binding from the map.
proof fn lemma_map_of_remove(entries: Seq<Entry>, i: int)
    requires
        keys_unique(entries),
        0 <= i < entries.len(),
    ensures
        keys_unique(entries.remove(i)),
        map_of(entries.remove(i)) == map_of(entries).remove(key_of(entries, i)),
{
    let s2 = entries.remove(i);
    let k0 = key_of(entries, i);
    assert forall|p: int, q: int| 0 <= p < q < s2.len() implies key_of(s2, p) != key_of(
        s2,
        q,
    ) by {
        let p0: int = if p < i { p } else { p + 1 };
        let q0: int = if q < i { q } else { q + 1 };
        assert(s2[p] == entries[p0]);
        assert(s2[q] == entries[q0]);
        assert(key_of(entries, p0) != key_of(entries, q0));
    };
    let m1 = map_of(entries).remove(k0);
    let m2 = map_of(s2);
    assert_maps_equal!(m2, m1, k => {
        if m1.contains_key(k) {
            let j0 = position_of(entries, k);
            assert(0 <= j0 < entries.len() && key_of(entries, j0) == k);
            assert(j0 != i);
            let j: int = if j0 < i { j0 } else { j0 - 1 };
            assert(s2[j] == entries[j0]);
            assert(key_of(s2, j) == k);
            assert(m2.contains_key(k));
        }
        if m2.contains_key(k) {
            let j = position_of(s2, k);
            assert(0 <= j < s2.len() && key_of(s2, j) == k);
            lemma_map_of_at(s2, j);
            let j0: int = if j < i { j } else { j + 1 };
            assert(s2[j] == entries[j0]);
            assert(key_of(entries, j0) == k);
            if k == k0 {
                assert(key_of(entries, j0) == key_of(entries, i));
                assert(false);
            }
            lemma_map_of_at(entries, j0);
            assert(m1.contains_key(k));
            assert(m2[k] == m1[k]);
        }
    });
}

/// The registry: the proof store together with the log of events it has
/// emitted, in order of emission.
pub struct Pallet {
    proofs: Vec<Entry>,
    events: Vec<Event>,
}

impl Pallet {
    /// Validity: the stored keys are pairwise distinct, so each proof has at
    /// most one record. Constructors establish this and every operation
    /// preserves it.
    pub closed spec fn wf(self) -> bool {
        keys_unique(self.proofs@)
    }

    /// The registry's state as a map from proof bytes to record.
    pub closed spec fn proofs_map(self) -> RegistryMap {
        map_of(self.proofs@)
    }

    /// The events emitted so far, oldest first.
    pub closed spec fn events_view(self) -> Seq<EventModel> {
        self.events@.map_values(|e: Event| e@)
    }

    /// An empty registry: nothing registered, nothing emitted.
    pub fn new() -> (r: Pallet)
        ensures
            r.wf(),
            r.proofs_map() == Map::<Seq<u8>, ProofRecord>::empty(),
            r.events_view() == Seq::<EventModel>::empty(),
    {
        let r = Pallet { proofs: Vec::new(), events: Vec::new() };
        proof {
            assert(r.proofs_map() =~= Map::<Seq<u8>, ProofRecord>::empty());
            assert(r.events_view() =~= Seq::<EventModel>::empty());
        }
        r
    }

    /// Byte-for-byte equality of two keys; no normalization.
    fn bytes_eq(a: &Vec<u8>, b: &Vec<u8>) -> (r: bool)
        ensures
            r == (a@ == b@),
    {
        if a.len() != b.len() {
            proof {
                if a@ == b@ {
                    assert(a@.len() == b@.len());
                }
            }
            return false;
        }
        let n = a.len();
        let mut i: usize = 0;
        while i < n
            invariant
                n == a@.len(),
                n == b@.len(),
                0 <= i <= n,
                forall|j: int| 0 <= j < i ==> a@[j] == b@[j],
            decreases n - i,
        {
            if a[i] != b[i] {
                proof {
                    if a@ == b@ {
                        assert(a@[i as int] == b@[i as int]);
                    }
                }
                return false;
            }
            i += 1;
        }
        proof {
            assert(a@ =~= b@);
        }
        true
    }

    /// The position of the entry stored under `proof_bytes`, or `None` when
    /// no entry carries that key.
    fn find_index(&self, proof_bytes: &Vec<u8>) -> (r: Option<usize>)
        ensures
            match r {
                Some(i) => 0 <= i < self.proofs@.len() && key_of(self.proofs@, i as int)
                    == proof_bytes@,
                None => !has_key(self.proofs@, proof_bytes@),
            },
    {
        let n = self.proofs.len();
        let mut i: usize = 0;
        while i < n
            invariant
                n == self.proofs@.len(),
                0 <= i <= n,
                forall|j: int| 0 <= j < i ==> key_of(self.proofs@, j) != proof_bytes@,
            decreases n - i,
        {
            if Self::bytes_eq(&self.proofs[i].proof_bytes, proof_bytes) {
                return Some(i);
            }
            i += 1;
        }
        None
    }

    /// `Create`: register `proof_bytes` to `caller` at sequence number
    /// `current_block`.
    ///
    /// Fails with `ProofAlreadyComplianced` iff the proof is already
    /// registered, and then changes nothing. On success it inserts exactly
    /// one record and appends exactly one `ComplianceCreated` event carrying
    /// the acting account and the exact proof bytes.
    pub fn create_compliance(
        &mut self,
        caller: AccountId,
        proof_bytes: Vec<u8>,
        current_block: BlockNumber,
    ) -> (result: Result<(), Error>)
        requires
            old(self).wf(),
        ensures
            final(self).wf(),
            result == create_result(old(self).proofs_map(), proof_bytes@),
            final(self).proofs_map() == create_state(
                old(self).proofs_map(),
                caller,
                proof_bytes@,
                current_block,
            ),
            final(self).events_view() == create_events(
                old(self).events_view(),
                old(self).proofs_map(),
                caller,
                proof_bytes@,
            ),
    {
        let ghost pb: Seq<u8> = proof_bytes@;
        let ghost m0: RegistryMap = self.proofs_map();
        let ghost es0: Seq<EventModel> = self.events_view();
        match self.find_index(&proof_bytes) {
            Some(i) => {
                proof {
                    assert(key_of(self.proofs@, i as int) == pb);
                    assert(has_key(self.proofs@, pb));
                    assert(m0.contains_key(pb));
                }
                Err(Error::ProofAlreadyComplianced)
            },
            None => {
                let record = ProofRecord { owner: caller, created_at: current_block };
                let key = clone_bytes(&proof_bytes);
                let entry = Entry { proof_bytes: key, record };
                proof {
                    lemma_map_of_push(self.proofs@, entry);
                }
                self.proofs.push(entry);
                self.events.push(Event::ComplianceCreated(caller, proof_bytes));
                proof {
                    assert(self.proofs_map() == m0.insert(
                        pb,
                        ProofRecord { owner: caller, created_at: current_block },
                    ));
                    assert(self.events_view() =~= es0.push(
                        EventModel::ComplianceCreated(caller, pb),
                    ));
                }
                Ok(())
            },
        }
    }

    /// `Revoke`: remove the record for `proof_bytes` on behalf of `caller`.
    ///
    /// Fails with `NoSuchProof` iff the proof is not registered and with
    /// `NotProofOwner` iff it is registered to another account; either way
    /// it changes nothing. On success it removes exactly one record and
    /// appends exactly one `ComplianceRevoked` event carrying the acting
    /// account and the exact proof bytes.
    pub fn revoke_compliance(&mut self, caller: AccountId, proof_bytes: Vec<u8>) -> (result: Result<
        (),
        Error,
    >)
        requires
            old(self).wf(),
        ensures
            final(self).wf(),
            result == revoke_result(old(self).proofs_map(), caller, proof_bytes@),
            final(self).proofs_map() == revoke_state(old(self).proofs_map(), caller, proof_bytes@),
            final(self).events_view() == revoke_events(
                old(self).events_view(),
                old(self).proofs_map(),
                caller,
                proof_bytes@,
            ),
    {
        let ghost pb: Seq<u8> = proof_bytes@;
        let ghost m0: RegistryMap = self.proofs_map();
        let ghost es0: Seq<EventModel> = self.events_view();
        match self.find_index(&proof_bytes) {
            None => Err(Error::NoSuchProof),
            Some(i) => {
                proof {
                    lemma_map_of_at(self.proofs@, i as int);
                }
                let owner = self.proofs[i].record.owner;
                if owner != caller {
                    Err(Error::NotProofOwner)
                } else {
                    proof {
                        lemma_map_of_remove(self.proofs@, i as int);
                    }
                    self.proofs.remove(i);
                    self.events.push(Event::ComplianceRevoked(caller, proof_bytes));
                    proof {
                        assert(self.proofs_map() == m0.remove(pb));
                        assert(self.events_view() =~= es0.push(
                            EventModel::ComplianceRevoked(caller, pb),
                        ));
                    }
                    Ok(())
                }
            },
        }
    }

    /// `Lookup`: the record stored under the exact byte key, or `None` when
    /// the proof is not registered.
    pub fn lookup(&self, proof_bytes: &Vec<u8>) -> (r: Option<ProofRecord>)
        requires
            self.wf(),
        ensures
            r == (if self.proofs_map().contains_key(proof_bytes@) {
                Some(self.proofs_map()[proof_bytes@])
            } else {
                None::<ProofRecord>
            }),
    {
        match self.find_index(proof_bytes) {
            Some(i) => {
                proof {
                    lemma_map_of_at(self.proofs@, i as int);
                }
                Some(self.proofs[i].record)
            },
            None => None,
        }
    }

    /// The events emitted so far, oldest first.
    pub fn event_log(&self) -> (r: &Vec<Event>)
        ensures
            r@.map_values(|e: Event| e@) == self.events_view(),
    {
        &self.events
    }
}

/// A copy of the key bytes, element by element.
fn clone_bytes(v: &Vec<u8>) -> (r: Vec<u8>)
    ensures
        r@ == v@,
{
    let n = v.len();
    let mut r: Vec<u8> = Vec::new();
    let mut i: usize = 0;
    while i < n
        invariant
            n == v@.len(),
            0 <= i <= n,
            r@ == v@.subrange(0, i as int),
        decreases n - i,
    {
        r.push(v[i]);
        proof {
            assert(r@ =~= v@.subrange(0, i + 1));
        }
        i += 1;
    }
    proof {
        assert(r@ =~= v@);
    }
    r
}

} // verus!
