//! The in-memory reference backend: one key-value table per category,
//! non-durable, with the same observable semantics as the persistent
//! backend. Any behaviour that differs between the two indicates a contract
//! leak and is a bug.

use vstd::prelude::*;

use crate::adapter::{
    apply_batch, apply_batch_from, apply_mutation, spec_get, StorageAdapter, StorageBatchModify,
};
use crate::category::StorageCategory;
use crate::errors::StorageError;
use crate::types::{bytes_eq, copy_bytes};

verus! {

/// One stored pair.
struct Slot {
    key: Vec<u8>,
    val: Vec<u8>,
}

/// No two slots hold the same key.
spec fn unique_keys(s: Seq<Slot>) -> bool {
    forall|i: int, j: int| 0 <= i < j < s.len() ==> s[i].key@ != s[j].key@
}

/// The mapping a slot sequence represents; later slots would win, though the
/// table never holds a key twice.
spec fn slots_map(s: Seq<Slot>) -> Map<Seq<u8>, Seq<u8>>
    decreases s.len(),
{
    if s.len() == 0 {
        Map::empty()
    } else {
        slots_map(s.drop_last()).insert(s.last().key@, s.last().val@)
    }
}

/// A key is in the mapping exactly when some slot holds it.
proof fn lemma_slots_contains(s: Seq<Slot>, k: Seq<u8>)
    ensures
        slots_map(s).contains_key(k) <==> exists|i: int| 0 <= i < s.len() && s[i].key@ == k,
    decreases s.len(),
{
    if s.len() == 0 {
        assert(!slots_map(s).contains_key(k));
    } else {
        let dl = s.drop_last();
        lemma_slots_contains(dl, k);
        if s.last().key@ == k {
            assert(s[s.len() - 1].key@ == k);
        } else {
            if slots_map(s).contains_key(k) {
                let i = choose|i: int| 0 <= i < dl.len() && dl[i].key@ == k;
                assert(s[i].key@ == k);
            }
            if exists|i: int| 0 <= i < s.len() && s[i].key@ == k {
                let i = choose|i: int| 0 <= i < s.len() && s[i].key@ == k;
                assert(dl[i].key@ == k);
            }
        }
    }
}

/// The slot holding a key gives the mapping's value for it.
proof fn lemma_slots_value(s: Seq<Slot>, i: int, k: Seq<u8>)
    requires
        unique_keys(s),
        0 <= i < s.len(),
        s[i].key@ == k,
    ensures
        slots_map(s).contains_key(k),
        slots_map(s)[k] == s[i].val@,
    decreases s.len(),
{
    let dl = s.drop_last();
    if i == s.len() - 1 {
    } else {
        assert(s.last().key@ != k);
        assert(unique_keys(dl));
        lemma_slots_value(dl, i, k);
    }
}

/// Removing the slot that holds a key removes exactly that key from the
/// mapping.
proof fn lemma_slots_remove(s: Seq<Slot>, i: int, k: Seq<u8>)
    requires
        unique_keys(s),
        0 <= i < s.len(),
        s[i].key@ == k,
    ensures
        slots_map(s.remove(i)) == slots_map(s).remove(k),
    decreases s.len(),
{
    let dl = s.drop_last();
    if i == s.len() - 1 {
        assert(s.remove(i) =~= dl);
        lemma_slots_contains(dl, k);
        assert(forall|j: int| 0 <= j < dl.len() ==> dl[j].key@ != k);
        assert(!slots_map(dl).contains_key(k));
        assert(slots_map(s).remove(k) =~= slots_map(dl));
    } else {
        assert(unique_keys(dl));
        assert(s.remove(i).len() == s.len() - 1);
        assert(s.remove(i).drop_last() =~= dl.remove(i));
        assert(s.remove(i).last() == s.last());
        lemma_slots_remove(dl, i, k);
        let lk = s.last().key@;
        let lv = s.last().val@;
        assert(lk != k);
        assert(slots_map(dl).remove(k).insert(lk, lv) =~= slots_map(dl).insert(lk, lv).remove(k));
        assert(slots_map(s.remove(i)) == slots_map(dl.remove(i)).insert(lk, lv));
    }
}

/// Removing a slot keeps the remaining keys distinct.
proof fn lemma_unique_remove(s: Seq<Slot>, i: int)
    requires
        unique_keys(s),
        0 <= i < s.len(),
    ensures
        unique_keys(s.remove(i)),
{
    let r = s.remove(i);
    assert forall|a: int, b: int| 0 <= a < b < r.len() implies r[a].key@ != r[b].key@ by {
        let oa = if a < i {
            a
        } else {
            a + 1
        };
        let ob = if b < i {
            b
        } else {
            b + 1
        };
        assert(r[a] == s[oa]);
        assert(r[b] == s[ob]);
    }
}

/// One category's table: an association list whose keys stay unique.
pub struct KvBucket {
    entries: Vec<Slot>,
}

impl View for KvBucket {
    type V = Map<Seq<u8>, Seq<u8>>;

    closed spec fn view(&self) -> Map<Seq<u8>, Seq<u8>> {
        slots_map(self.entries@)
    }
}

impl KvBucket {
    #[verifier::type_invariant]
    spec fn wf(self) -> bool {
        unique_keys(self.entries@)
    }

    /// An empty table.
    pub fn new() -> (b: KvBucket)
        ensures
            b@ == Map::<Seq<u8>, Seq<u8>>::empty(),
    {
        KvBucket { entries: Vec::new() }
    }

    /// The index of the slot holding `key`, if any.
    fn find(&self, key: &Vec<u8>) -> (r: Option<usize>)
        ensures
            match r {
                Some(i) => i < self.entries@.len() && self.entries@[i as int].key@ == key@,
                None => !self@.contains_key(key@),
            },
    {
        proof {
            use_type_invariant(self);
            lemma_slots_contains(self.entries@, key@);
        }
        let n = self.entries.len();
        let mut i: usize = 0;
        while i < n
            invariant
                i <= n,
                n == self.entries@.len(),
                forall|j: int| 0 <= j < i ==> self.entries@[j].key@ != key@,
            decreases n - i,
        {
            if bytes_eq(&self.entries[i].key, key) {
                return Some(i);
            }
            i += 1;
        }
        None
    }

    /// Reads the value stored under `key`. Absence is `None`, never an
    /// error.
    pub fn get(&self, key: &Vec<u8>) -> (r: Option<Vec<u8>>)
        ensures
            match r {
                Some(v) => spec_get(self@, key@) == Some(v@),
                None => spec_get(self@, key@) is None,
            },
    {
        proof {
            use_type_invariant(self);
        }
        match self.find(key) {
            Some(i) => {
                proof {
                    lemma_slots_value(self.entries@, i as int, key@);
                }
                Some(copy_bytes(&self.entries[i].val))
            },
            None => None,
        }
    }

    /// Reports whether `key` is present.
    pub fn contains(&self, key: &Vec<u8>) -> (r: bool)
        ensures
            r == self@.contains_key(key@),
    {
        proof {
            use_type_invariant(self);
        }
        match self.find(key) {
            Some(i) => {
                proof {
                    lemma_slots_value(self.entries@, i as int, key@);
                }
                true
            },
            None => false,
        }
    }

    /// Deletes `key`. Removing an absent key succeeds and changes nothing.
    pub fn remove(&mut self, key: &Vec<u8>)
        ensures
            final(self)@ == old(self)@.remove(key@),
    {
        proof {
            use_type_invariant(&*self);
        }
        match self.find(key) {
            Some(i) => {
                proof {
                    lemma_slots_remove(self.entries@, i as int, key@);
                    lemma_unique_remove(self.entries@, i as int);
                }
                let mut entries: Vec<Slot> = Vec::new();
                core::mem::swap(&mut entries, &mut self.entries);
                entries.remove(i);
                self.entries = entries;
            },
            None => {
                proof {
                    assert(old(self)@.remove(key@) =~= old(self)@);
                }
            },
        }
    }

    /// Stores `val` under `key`, overwriting any previous value.
    pub fn insert(&mut self, key: Vec<u8>, val: Vec<u8>)
        ensures
            final(self)@ == old(self)@.insert(key@, val@),
    {
        self.remove(&key);
        proof {
            use_type_invariant(&*self);
            lemma_slots_contains(self.entries@, key@);
            assert(!self@.contains_key(key@));
        }
        let ghost s1 = self.entries@;
        let mut entries: Vec<Slot> = Vec::new();
        core::mem::swap(&mut entries, &mut self.entries);
        entries.push(Slot { key, val });
        proof {
            assert(entries@.drop_last() =~= s1);
            assert(unique_keys(entries@));
            assert(old(self)@.remove(key@).insert(key@, val@) =~= old(self)@.insert(key@, val@));
        }
        self.entries = entries;
    }
}

/// The non-durable reference backend: one table per category.
pub struct MemoryAdapter {
    blocks: KvBucket,
    receipts: KvBucket,
    transactions: KvBucket,
    wals: KvBucket,
}

impl MemoryAdapter {
    /// An adapter whose every category starts empty.
    pub fn new() -> (a: MemoryAdapter)
        ensures
            forall|c: StorageCategory| a.contents(c) == Map::<Seq<u8>, Seq<u8>>::empty(),
    {
        MemoryAdapter {
            blocks: KvBucket::new(),
            receipts: KvBucket::new(),
            transactions: KvBucket::new(),
            wals: KvBucket::new(),
        }
    }
}

/// Applies a batch slice to one table, in order.
fn apply_to_bucket(bucket: &mut KvBucket, keys: &Vec<Vec<u8>>, muts: &Vec<StorageBatchModify>)
    requires
        keys@.len() == muts@.len(),
    ensures
        final(bucket)@ == apply_batch(old(bucket)@, keys@, muts@),
{
    let n = keys.len();
    let ghost m0 = bucket@;
    let mut i: usize = 0;
    while i < n
        invariant
            i <= n,
            n == keys@.len(),
            keys@.len() == muts@.len(),
            apply_batch(m0, keys@, muts@) == apply_batch_from(bucket@, keys@, muts@, i as int),
        decreases n - i,
    {
        match &muts[i] {
            StorageBatchModify::Insert(v) => {
                bucket.insert(copy_bytes(&keys[i]), copy_bytes(v));
            },
            StorageBatchModify::Remove => {
                bucket.remove(&keys[i]);
            },
        }
        i += 1;
    }
}

// With no engine underneath, the reference backend owes success everywhere:
// each operation strengthens the trait contract with `r is Ok` (for a batch,
// whenever the lists match in length).
impl StorageAdapter for MemoryAdapter {
    closed spec fn contents(&self, c: StorageCategory) -> Map<Seq<u8>, Seq<u8>> {
        match c {
            StorageCategory::Block => self.blocks@,
            StorageCategory::Receipt => self.receipts@,
            StorageCategory::SignedTransaction => self.transactions@,
            StorageCategory::Wal => self.wals@,
        }
    }

    fn insert(&mut self, c: StorageCategory, key: Vec<u8>, val: Vec<u8>) -> (r: Result<
        (),
        StorageError,
    >)
        ensures
            r is Ok,
    {
        let bucket = match c {
            StorageCategory::Block => &mut self.blocks,
            StorageCategory::Receipt => &mut self.receipts,
            StorageCategory::SignedTransaction => &mut self.transactions,
            StorageCategory::Wal => &mut self.wals,
        };
        bucket.insert(key, val);
        Ok(())
    }

    fn get(&self, c: StorageCategory, key: &Vec<u8>) -> (r: Result<Option<Vec<u8>>, StorageError>)
        ensures
            r is Ok,
    {
        let bucket = match c {
            StorageCategory::Block => &self.blocks,
            StorageCategory::Receipt => &self.receipts,
            StorageCategory::SignedTransaction => &self.transactions,
            StorageCategory::Wal => &self.wals,
        };
        Ok(bucket.get(key))
    }

    fn remove(&mut self, c: StorageCategory, key: &Vec<u8>) -> (r: Result<(), StorageError>)
        ensures
            r is Ok,
    {
        let bucket = match c {
            StorageCategory::Block => &mut self.blocks,
            StorageCategory::Receipt => &mut self.receipts,
            StorageCategory::SignedTransaction => &mut self.transactions,
            StorageCategory::Wal => &mut self.wals,
        };
        bucket.remove(key);
        Ok(())
    }

    fn contains(&self, c: StorageCategory, key: &Vec<u8>) -> (r: Result<bool, StorageError>)
        ensures
            r is Ok,
    {
        let bucket = match c {
            StorageCategory::Block => &self.blocks,
            StorageCategory::Receipt => &self.receipts,
            StorageCategory::SignedTransaction => &self.transactions,
            StorageCategory::Wal => &self.wals,
        };
        Ok(bucket.contains(key))
    }

    fn batch_modify(
        &mut self,
        c: StorageCategory,
        keys: Vec<Vec<u8>>,
        muts: Vec<StorageBatchModify>,
    ) -> (r: Result<(), StorageError>)
        ensures
            keys@.len() == muts@.len() ==> r is Ok,
    {
        if keys.len() != muts.len() {
            return Err(StorageError::BatchLengthMismatch);
        }
        let bucket = match c {
            StorageCategory::Block => &mut self.blocks,
            StorageCategory::Receipt => &mut self.receipts,
            StorageCategory::SignedTransaction => &mut self.transactions,
            StorageCategory::Wal => &mut self.wals,
        };
        apply_to_bucket(bucket, &keys, &muts);
        Ok(())
    }
}

} // verus!
