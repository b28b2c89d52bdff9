//! The backend-agnostic storage adapter contract: the operations every
//! backend offers, the batch-mutation semantics, and the laws that tie the
//! operations together.

use vstd::prelude::*;

use crate::category::StorageCategory;
use crate::errors::StorageError;

pub mod memory;

verus! {

/// One mutation of a batch: either write a value under the paired key or
/// delete the paired key. A sum type, so no third state exists.
#[derive(Debug)]
pub enum StorageBatchModify {
    Insert(Vec<u8>),
    Remove,
}

/// What one mutation does to a category's contents.
pub open spec fn apply_mutation(
    m: Map<Seq<u8>, Seq<u8>>,
    key: Seq<u8>,
    mutation: StorageBatchModify,
) -> Map<Seq<u8>, Seq<u8>> {
    match mutation {
        StorageBatchModify::Insert(v) => m.insert(key, v@),
        StorageBatchModify::Remove => m.remove(key),
    }
}

/// The contents after the batch's mutations from position `i` on have been
/// applied in the caller-supplied order.
pub open spec fn apply_batch_from(
    m: Map<Seq<u8>, Seq<u8>>,
    keys: Seq<Vec<u8>>,
    muts: Seq<StorageBatchModify>,
    i: int,
) -> Map<Seq<u8>, Seq<u8>>
    decreases keys.len() - i,
{
    if i < 0 || i >= keys.len() || keys.len() != muts.len() {
        m
    } else {
        apply_batch_from(apply_mutation(m, keys[i]@, muts[i]), keys, muts, i + 1)
    }
}

/// The contents after a whole batch has been applied in order.
pub open spec fn apply_batch(
    m: Map<Seq<u8>, Seq<u8>>,
    keys: Seq<Vec<u8>>,
    muts: Seq<StorageBatchModify>,
) -> Map<Seq<u8>, Seq<u8>> {
    apply_batch_from(m, keys, muts, 0)
}

/// What a read of `k` must return over contents `m`.
pub open spec fn spec_get(m: Map<Seq<u8>, Seq<u8>>, k: Seq<u8>) -> Option<Seq<u8>> {
    if m.contains_key(k) {
        Some(m[k])
    } else {
        None
    }
}

/// The generic, backend-agnostic storage contract. Both the in-memory
/// reference backend and a persistent engine-backed one present exactly
/// these operations; callers depend only on this interface.
pub trait StorageAdapter: Sized {
    /// The logical contents of one category's partition: a map from encoded
    /// key bytes to stored value bytes.
    spec fn contents(&self, c: StorageCategory) -> Map<Seq<u8>, Seq<u8>>;

    /// Stores `val` under `key` in `c`'s partition. Always overwrites:
    /// pre-existence is never an error. No other category changes, and a
    /// failed write leaves every category as it was.
    fn insert(&mut self, c: StorageCategory, key: Vec<u8>, val: Vec<u8>) -> (r: Result<
        (),
        StorageError,
    >)
        ensures
            r is Ok ==> final(self).contents(c) == old(self).contents(c).insert(key@, val@),
            r is Ok ==> forall|c2: StorageCategory|
                c2 != c ==> final(self).contents(c2) == old(self).contents(c2),
            r is Err ==> forall|c2: StorageCategory|
                final(self).contents(c2) == old(self).contents(c2),
            r matches Err(e) ==> (e is CategoryNotFound || e is Backend),
    ;

    /// Looks `key` up in `c`'s partition. Absence is `Ok(None)`, never an
    /// error.
    fn get(&self, c: StorageCategory, key: &Vec<u8>) -> (r: Result<Option<Vec<u8>>, StorageError>)
        ensures
            r matches Ok(Some(v)) ==> spec_get(self.contents(c), key@) == Some(v@),
            r matches Ok(None) ==> spec_get(self.contents(c), key@) is None,
            r matches Err(e) ==> (e is CategoryNotFound || e is Backend),
    ;

    /// Deletes `key` from `c`'s partition. Removing an absent key succeeds
    /// and changes nothing, and a failed delete leaves every category as it
    /// was.
    fn remove(&mut self, c: StorageCategory, key: &Vec<u8>) -> (r: Result<(), StorageError>)
        ensures
            r is Ok ==> final(self).contents(c) == old(self).contents(c).remove(key@),
            r is Ok ==> forall|c2: StorageCategory|
                c2 != c ==> final(self).contents(c2) == old(self).contents(c2),
            r is Err ==> forall|c2: StorageCategory|
                final(self).contents(c2) == old(self).contents(c2),
            r matches Err(e) ==> (e is CategoryNotFound || e is Backend),
    ;

    /// Reports whether `key` is present in `c`'s partition, without decoding
    /// the stored value.
    fn contains(&self, c: StorageCategory, key: &Vec<u8>) -> (r: Result<bool, StorageError>)
        ensures
            r matches Ok(b) ==> b == self.contents(c).contains_key(key@),
            r matches Err(e) ==> (e is CategoryNotFound || e is Backend),
    ;

    /// Applies `muts[i]` under `keys[i]`, in order, as one atomic unit: on
    /// success every mutation is visible, on any error none is. A batch
    /// whose lists differ in length is rejected before any write, with the
    /// length-mismatch error and no other.
    fn batch_modify(
        &mut self,
        c: StorageCategory,
        keys: Vec<Vec<u8>>,
        muts: Vec<StorageBatchModify>,
    ) -> (r: Result<(), StorageError>)
        ensures
            keys@.len() != muts@.len() ==> (r matches Err(e) && e is BatchLengthMismatch),
            (r matches Err(e) && e is BatchLengthMismatch) ==> keys@.len() != muts@.len(),
            r is Ok ==> final(self).contents(c) == apply_batch(old(self).contents(c), keys@, muts@),
            r is Ok ==> forall|c2: StorageCategory|
                c2 != c ==> final(self).contents(c2) == old(self).contents(c2),
            r is Err ==> forall|c2: StorageCategory|
                final(self).contents(c2) == old(self).contents(c2),
            r matches Err(e) ==> (e is BatchLengthMismatch || e is CategoryNotFound
                || e is Backend),
    ;
}

/// Round trip: after a value is stored, reading its key returns exactly
/// that value.
pub proof fn lemma_insert_then_get(m: Map<Seq<u8>, Seq<u8>>, k: Seq<u8>, v: Seq<u8>)
    ensures
        spec_get(m.insert(k, v), k) == Some(v),
{
}

/// Idempotent overwrite: storing twice under one key leaves only the second
/// value, as if the first store had never happened.
pub proof fn lemma_overwrite(m: Map<Seq<u8>, Seq<u8>>, k: Seq<u8>, v1: Seq<u8>, v2: Seq<u8>)
    ensures
        m.insert(k, v1).insert(k, v2) == m.insert(k, v2),
        spec_get(m.insert(k, v1).insert(k, v2), k) == Some(v2),
{
    assert(m.insert(k, v1).insert(k, v2) =~= m.insert(k, v2));
}

/// No-op remove: deleting an absent key leaves the contents unchanged.
pub proof fn lemma_remove_absent(m: Map<Seq<u8>, Seq<u8>>, k: Seq<u8>)
    requires
        !m.contains_key(k),
    ensures
        m.remove(k) == m,
{
    assert(m.remove(k) =~= m);
}

/// Backend equivalence: the adapter contract determines every observable
/// outcome from the contents alone. Two backends holding equal contents
/// must answer `get` and `contains` alike and must hold equal contents
/// again after the same successful operation, so a fixed operation sequence
/// cannot tell the in-memory backend from the persistent one (durability
/// after a crash aside).
pub proof fn lemma_backend_equivalence(
    m1: Map<Seq<u8>, Seq<u8>>,
    m2: Map<Seq<u8>, Seq<u8>>,
    keys: Seq<Vec<u8>>,
    muts: Seq<StorageBatchModify>,
    key: Seq<u8>,
    val: Seq<u8>,
)
    requires
        m1 == m2,
    ensures
        spec_get(m1, key) == spec_get(m2, key),
        m1.contains_key(key) == m2.contains_key(key),
        m1.insert(key, val) == m2.insert(key, val),
        m1.remove(key) == m2.remove(key),
        apply_batch(m1, keys, muts) == apply_batch(m2, keys, muts),
{
}

} // verus!
