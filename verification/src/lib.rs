//! A schema-polymorphic key-value storage core for a blockchain node.
//!
//! The crate multiplexes unrelated entity kinds (blocks, receipts, signed
//! transactions, a consensus write-ahead log, the latest finality proof)
//! over a closed set of categories, each mapped to one physical partition.
//! Backends implement one adapter contract: the in-memory reference backend
//! lives here, verified; a persistent engine-backed one mirrors the same
//! contract. Multi-key batch mutations apply atomically.

use vstd::prelude::*;

pub mod adapter;
pub mod category;
pub mod codec;
pub mod config;
pub mod errors;
pub mod types;

use crate::adapter::{
    apply_batch_from, apply_mutation, spec_get, StorageAdapter, StorageBatchModify,
};
use crate::category::StorageCategory;
use crate::codec::{
    decode_block, decode_proof, decode_receipt, decode_transaction, encode_block, encode_proof,
    encode_receipt, encode_transaction, key_block_by_hash, key_block_by_height, key_latest_block,
    key_latest_proof, key_receipt, key_transaction, key_wal, spec_encode_block, spec_encode_proof,
    spec_encode_receipt, spec_encode_transaction, spec_key_block_by_hash, spec_key_block_by_height,
    spec_key_latest_block, spec_key_latest_proof, spec_key_receipt, spec_key_transaction,
    spec_key_wal, block_enc_len, proof_enc_len,
};
use crate::errors::StorageError;
use crate::types::{copy_bytes, Block, Proof, Receipt, SignedTransaction};

verus! {

/// The contents of a receipt partition after the receipts from position `i`
/// on have been stored in order, each under its transaction digest.
pub open spec fn store_receipts_from(
    m: Map<Seq<u8>, Seq<u8>>,
    rs: Seq<Receipt>,
    i: int,
) -> Map<Seq<u8>, Seq<u8>>
    decreases rs.len() - i,
{
    if i < 0 || i >= rs.len() {
        m
    } else {
        store_receipts_from(
            m.insert(spec_key_receipt(rs[i].tx_hash@), spec_encode_receipt(rs[i])),
            rs,
            i + 1,
        )
    }
}

/// The contents of a transaction partition after the transactions from
/// position `i` on have been stored in order, each under its digest.
pub open spec fn store_transactions_from(
    m: Map<Seq<u8>, Seq<u8>>,
    ts: Seq<SignedTransaction>,
    i: int,
) -> Map<Seq<u8>, Seq<u8>>
    decreases ts.len() - i,
{
    if i < 0 || i >= ts.len() {
        m
    } else {
        store_transactions_from(
            m.insert(spec_key_transaction(ts[i].tx_hash@), spec_encode_transaction(ts[i])),
            ts,
            i + 1,
        )
    }
}

/// A batch of inserts keyed by the receipts' digests stores the receipts.
proof fn lemma_receipt_batch(
    m: Map<Seq<u8>, Seq<u8>>,
    keys: Seq<Vec<u8>>,
    muts: Seq<StorageBatchModify>,
    rs: Seq<Receipt>,
    i: int,
)
    requires
        keys.len() == rs.len(),
        muts.len() == rs.len(),
        0 <= i <= rs.len(),
        forall|j: int| i <= j < rs.len() ==> keys[j]@ == spec_key_receipt(rs[j].tx_hash@),
        forall|j: int|
            i <= j < rs.len() ==> (#[trigger] muts[j] matches StorageBatchModify::Insert(v)
                && v@ == spec_encode_receipt(rs[j])),
    ensures
        apply_batch_from(m, keys, muts, i) == store_receipts_from(m, rs, i),
    decreases rs.len() - i,
{
    if 0 <= i < rs.len() {
        lemma_receipt_batch(
            apply_mutation(m, keys[i]@, muts[i]),
            keys,
            muts,
            rs,
            i + 1,
        );
    }
}

/// A batch of inserts keyed by the transactions' digests stores the
/// transactions.
proof fn lemma_transaction_batch(
    m: Map<Seq<u8>, Seq<u8>>,
    keys: Seq<Vec<u8>>,
    muts: Seq<StorageBatchModify>,
    ts: Seq<SignedTransaction>,
    i: int,
)
    requires
        keys.len() == ts.len(),
        muts.len() == ts.len(),
        0 <= i <= ts.len(),
        forall|j: int| i <= j < ts.len() ==> keys[j]@ == spec_key_transaction(ts[j].tx_hash@),
        forall|j: int|
            i <= j < ts.len() ==> (#[trigger] muts[j] matches StorageBatchModify::Insert(v)
                && v@ == spec_encode_transaction(ts[j])),
    ensures
        apply_batch_from(m, keys, muts, i) == store_transactions_from(m, ts, i),
    decreases ts.len() - i,
{
    if 0 <= i < ts.len() {
        lemma_transaction_batch(
            apply_mutation(m, keys[i]@, muts[i]),
            keys,
            muts,
            ts,
            i + 1,
        );
    }
}

/// The typed domain facade: each operation is one schema instantiation over
/// the adapter contract.
pub struct ImplStorage<Adapter: StorageAdapter> {
    adapter: Adapter,
}

impl<Adapter: StorageAdapter> ImplStorage<Adapter> {
    /// The logical contents of one category's partition, as the underlying
    /// adapter holds them.
    pub closed spec fn contents(&self, c: StorageCategory) -> Map<Seq<u8>, Seq<u8>> {
        self.adapter.contents(c)
    }

    /// Wraps an adapter. The facade owns it for the process's lifetime.
    pub fn new(adapter: Adapter) -> (s: Self)
        ensures
            forall|c: StorageCategory| s.contents(c) == adapter.contents(c),
    {
        ImplStorage { adapter }
    }

    /// Stores a block under its height, under its digest, and as the latest
    /// block, as one atomic batch: on success all three entries are visible,
    /// on any error none is.
    pub fn insert_block(&mut self, block: Block) -> (r: Result<(), StorageError>)
        ensures
            r is Ok ==> final(self).contents(StorageCategory::Block) == old(self).contents(
                StorageCategory::Block,
            ).insert(spec_key_latest_block(), spec_encode_block(block)).insert(
                spec_key_block_by_height(block.header.height),
                spec_encode_block(block),
            ).insert(spec_key_block_by_hash(block.hash@), spec_encode_block(block)),
            r is Ok ==> forall|c2: StorageCategory|
                c2 != StorageCategory::Block ==> final(self).contents(c2) == old(self).contents(c2),
            r is Err ==> forall|c2: StorageCategory|
                final(self).contents(c2) == old(self).contents(c2),
            r matches Err(e) ==> (e is CategoryNotFound || e is Backend),
    {
        let enc = encode_block(&block);
        let mut keys: Vec<Vec<u8>> = Vec::new();
        keys.push(key_latest_block());
        keys.push(key_block_by_height(block.header.height));
        keys.push(key_block_by_hash(&block.hash));
        let mut muts: Vec<StorageBatchModify> = Vec::new();
        muts.push(StorageBatchModify::Insert(copy_bytes(&enc)));
        muts.push(StorageBatchModify::Insert(copy_bytes(&enc)));
        muts.push(StorageBatchModify::Insert(enc));
        let r = self.adapter.batch_modify(StorageCategory::Block, keys, muts);
        proof {
            reveal_with_fuel(apply_batch_from, 5);
        }
        match r {
            Ok(()) => Ok(()),
            Err(e) => Err(e),
        }
    }

    /// Reads back the block stored under `height`. `NotFound` exactly when
    /// no block is stored there; a codec error exactly when the stored bytes
    /// are malformed.
    pub fn get_block_by_height(&self, height: u64) -> (r: Result<Block, StorageError>)
        ensures
            r matches Ok(b) ==> spec_get(
                self.contents(StorageCategory::Block),
                spec_key_block_by_height(height),
            ) == Some(spec_encode_block(b)),
            (r matches Err(e) && e is NotFound) ==> !self.contents(
                StorageCategory::Block,
            ).contains_key(spec_key_block_by_height(height)),
            (r matches Err(e) && e is Codec) ==> (self.contents(
                StorageCategory::Block,
            ).contains_key(spec_key_block_by_height(height)) && self.contents(
                StorageCategory::Block,
            )[spec_key_block_by_height(height)].len() != block_enc_len()),
            r matches Err(e) ==> (e is NotFound || e is Codec || e is CategoryNotFound
                || e is Backend),
    {
        let key = key_block_by_height(height);
        match self.adapter.get(StorageCategory::Block, &key) {
            Ok(Some(v)) => decode_block(&v),
            Ok(None) => Err(StorageError::NotFound),
            Err(e) => Err(e),
        }
    }

    /// Reads back the block stored under the digest `hash`.
    pub fn get_block_by_hash(&self, hash: crate::types::Hash) -> (r: Result<Block, StorageError>)
        ensures
            r matches Ok(b) ==> spec_get(
                self.contents(StorageCategory::Block),
                spec_key_block_by_hash(hash@),
            ) == Some(spec_encode_block(b)),
            (r matches Err(e) && e is NotFound) ==> !self.contents(
                StorageCategory::Block,
            ).contains_key(spec_key_block_by_hash(hash@)),
            (r matches Err(e) && e is Codec) ==> (self.contents(
                StorageCategory::Block,
            ).contains_key(spec_key_block_by_hash(hash@)) && self.contents(
                StorageCategory::Block,
            )[spec_key_block_by_hash(hash@)].len() != block_enc_len()),
            r matches Err(e) ==> (e is NotFound || e is Codec || e is CategoryNotFound
                || e is Backend),
    {
        let key = key_block_by_hash(&hash);
        match self.adapter.get(StorageCategory::Block, &key) {
            Ok(Some(v)) => decode_block(&v),
            Ok(None) => Err(StorageError::NotFound),
            Err(e) => Err(e),
        }
    }

    /// Reads back the block most recently stored as the latest block.
    pub fn get_latest_block(&self) -> (r: Result<Block, StorageError>)
        ensures
            r matches Ok(b) ==> spec_get(
                self.contents(StorageCategory::Block),
                spec_key_latest_block(),
            ) == Some(spec_encode_block(b)),
            (r matches Err(e) && e is NotFound) ==> !self.contents(
                StorageCategory::Block,
            ).contains_key(spec_key_latest_block()),
            (r matches Err(e) && e is Codec) ==> (self.contents(
                StorageCategory::Block,
            ).contains_key(spec_key_latest_block()) && self.contents(
                StorageCategory::Block,
            )[spec_key_latest_block()].len() != block_enc_len()),
            r matches Err(e) ==> (e is NotFound || e is Codec || e is CategoryNotFound
                || e is Backend),
    {
        let key = key_latest_block();
        match self.adapter.get(StorageCategory::Block, &key) {
            Ok(Some(v)) => decode_block(&v),
            Ok(None) => Err(StorageError::NotFound),
            Err(e) => Err(e),
        }
    }

    /// Stores every receipt under its transaction digest, as one atomic
    /// batch.
    pub fn insert_receipts(&mut self, receipts: Vec<Receipt>) -> (r: Result<(), StorageError>)
        ensures
            r is Ok ==> final(self).contents(StorageCategory::Receipt) == store_receipts_from(
                old(self).contents(StorageCategory::Receipt),
                receipts@,
                0,
            ),
            r is Ok ==> forall|c2: StorageCategory|
                c2 != StorageCategory::Receipt ==> final(self).contents(c2) == old(
                    self,
                ).contents(c2),
            r is Err ==> forall|c2: StorageCategory|
                final(self).contents(c2) == old(self).contents(c2),
            r matches Err(e) ==> (e is CategoryNotFound || e is Backend),
    {
        let n = receipts.len();
        let mut keys: Vec<Vec<u8>> = Vec::new();
        let mut muts: Vec<StorageBatchModify> = Vec::new();
        let mut i: usize = 0;
        while i < n
            invariant
                i <= n,
                n == receipts@.len(),
                keys@.len() == i,
                muts@.len() == i,
                forall|j: int|
                    0 <= j < i ==> keys@[j]@ == spec_key_receipt(receipts@[j].tx_hash@),
                forall|j: int|
                    0 <= j < i ==> (#[trigger] muts@[j] matches StorageBatchModify::Insert(v)
                        && v@ == spec_encode_receipt(receipts@[j])),
            decreases n - i,
        {
            keys.push(key_receipt(&receipts[i].tx_hash));
            muts.push(StorageBatchModify::Insert(encode_receipt(&receipts[i])));
            i += 1;
        }
        let r = self.adapter.batch_modify(StorageCategory::Receipt, keys, muts);
        proof {
            if r is Ok {
                lemma_receipt_batch(
                    old(self).contents(StorageCategory::Receipt),
                    keys@,
                    muts@,
                    receipts@,
                    0,
                );
            }
        }
        r
    }

    /// Reads back one receipt per digest, in the callers' order. `NotFound`
    /// only when some digest has no stored receipt; a codec error only when
    /// some stored receipt is malformed.
    pub fn get_receipts(&self, hashes: Vec<crate::types::Hash>) -> (r: Result<
        Vec<Receipt>,
        StorageError,
    >)
        ensures
            r matches Ok(rs) ==> rs@.len() == hashes@.len(),
            r matches Ok(rs) ==> forall|j: int|
                0 <= j < hashes@.len() ==> spec_get(
                    self.contents(StorageCategory::Receipt),
                    spec_key_receipt(hashes@[j]@),
                ) == Some(spec_encode_receipt(#[trigger] rs@[j])),
            (r matches Err(e) && e is NotFound) ==> exists|j: int|
                0 <= j < hashes@.len() && !self.contents(StorageCategory::Receipt).contains_key(
                    spec_key_receipt(#[trigger] hashes@[j]@),
                ),
            r matches Err(e) ==> (e is NotFound || e is Codec || e is CategoryNotFound
                || e is Backend),
    {
        let n = hashes.len();
        let mut out: Vec<Receipt> = Vec::new();
        let mut i: usize = 0;
        while i < n
            invariant
                i <= n,
                n == hashes@.len(),
                out@.len() == i,
                forall|j: int|
                    0 <= j < i ==> spec_get(
                        self.contents(StorageCategory::Receipt),
                        spec_key_receipt(hashes@[j]@),
                    ) == Some(spec_encode_receipt(#[trigger] out@[j])),
            decreases n - i,
        {
            let key = key_receipt(&hashes[i]);
            match self.adapter.get(StorageCategory::Receipt, &key) {
                Ok(Some(v)) => {
                    match decode_receipt(&v) {
                        Ok(rc) => {
                            out.push(rc);
                        },
                        Err(e) => {
                            return Err(e);
                        },
                    }
                },
                Ok(None) => {
                    return Err(StorageError::NotFound);
                },
                Err(e) => {
                    return Err(e);
                },
            }
            i += 1;
        }
        Ok(out)
    }

    /// Stores every transaction under its digest, as one atomic batch.
    pub fn insert_transactions(&mut self, signed_txs: Vec<SignedTransaction>) -> (r: Result<
        (),
        StorageError,
    >)
        ensures
            r is Ok ==> final(self).contents(StorageCategory::SignedTransaction)
                == store_transactions_from(
                old(self).contents(StorageCategory::SignedTransaction),
                signed_txs@,
                0,
            ),
            r is Ok ==> forall|c2: StorageCategory|
                c2 != StorageCategory::SignedTransaction ==> final(self).contents(c2) == old(
                    self,
                ).contents(c2),
            r is Err ==> forall|c2: StorageCategory|
                final(self).contents(c2) == old(self).contents(c2),
            r matches Err(e) ==> (e is CategoryNotFound || e is Backend),
    {
        let n = signed_txs.len();
        let mut keys: Vec<Vec<u8>> = Vec::new();
        let mut muts: Vec<StorageBatchModify> = Vec::new();
        let mut i: usize = 0;
        while i < n
            invariant
                i <= n,
                n == signed_txs@.len(),
                keys@.len() == i,
                muts@.len() == i,
                forall|j: int|
                    0 <= j < i ==> keys@[j]@ == spec_key_transaction(signed_txs@[j].tx_hash@),
                forall|j: int|
                    0 <= j < i ==> (#[trigger] muts@[j] matches StorageBatchModify::Insert(v)
                        && v@ == spec_encode_transaction(signed_txs@[j])),
            decreases n - i,
        {
            keys.push(key_transaction(&signed_txs[i].tx_hash));
            muts.push(StorageBatchModify::Insert(encode_transaction(&signed_txs[i])));
            i += 1;
        }
        let r = self.adapter.batch_modify(StorageCategory::SignedTransaction, keys, muts);
        proof {
            if r is Ok {
                lemma_transaction_batch(
                    old(self).contents(StorageCategory::SignedTransaction),
                    keys@,
                    muts@,
                    signed_txs@,
                    0,
                );
            }
        }
        r
    }

    /// Reads back one signed transaction per digest, in the callers' order.
    pub fn get_transactions(&self, hashes: Vec<crate::types::Hash>) -> (r: Result<
        Vec<SignedTransaction>,
        StorageError,
    >)
        ensures
            r matches Ok(ts) ==> ts@.len() == hashes@.len(),
            r matches Ok(ts) ==> forall|j: int|
                0 <= j < hashes@.len() ==> spec_get(
                    self.contents(StorageCategory::SignedTransaction),
                    spec_key_transaction(hashes@[j]@),
                ) == Some(spec_encode_transaction(#[trigger] ts@[j])),
            (r matches Err(e) && e is NotFound) ==> exists|j: int|
                0 <= j < hashes@.len() && !self.contents(
                    StorageCategory::SignedTransaction,
                ).contains_key(spec_key_transaction(#[trigger] hashes@[j]@)),
            r matches Err(e) ==> (e is NotFound || e is Codec || e is CategoryNotFound
                || e is Backend),
    {
        let n = hashes.len();
        let mut out: Vec<SignedTransaction> = Vec::new();
        let mut i: usize = 0;
        while i < n
            invariant
                i <= n,
                n == hashes@.len(),
                out@.len() == i,
                forall|j: int|
                    0 <= j < i ==> spec_get(
                        self.contents(StorageCategory::SignedTransaction),
                        spec_key_transaction(hashes@[j]@),
                    ) == Some(spec_encode_transaction(#[trigger] out@[j])),
            decreases n - i,
        {
            let key = key_transaction(&hashes[i]);
            match self.adapter.get(StorageCategory::SignedTransaction, &key) {
                Ok(Some(v)) => {
                    match decode_transaction(&v) {
                        Ok(t) => {
                            out.push(t);
                        },
                        Err(e) => {
                            return Err(e);
                        },
                    }
                },
                Ok(None) => {
                    return Err(StorageError::NotFound);
                },
                Err(e) => {
                    return Err(e);
                },
            }
            i += 1;
        }
        Ok(out)
    }

    /// Stores the latest finality proof, overwriting the previous one. The
    /// proof lives in the block category under its own singleton key, which
    /// can never collide with a height or digest key. A failed update leaves
    /// every category as it was.
    pub fn update_latest_proof(&mut self, latest_proof: Proof) -> (r: Result<(), StorageError>)
        ensures
            r is Ok ==> final(self).contents(StorageCategory::Block) == old(self).contents(
                StorageCategory::Block,
            ).insert(spec_key_latest_proof(), spec_encode_proof(latest_proof)),
            r is Ok ==> forall|c2: StorageCategory|
                c2 != StorageCategory::Block ==> final(self).contents(c2) == old(self).contents(c2),
            r is Err ==> forall|c2: StorageCategory|
                final(self).contents(c2) == old(self).contents(c2),
            r matches Err(e) ==> (e is CategoryNotFound || e is Backend),
    {
        let key = key_latest_proof();
        let val = encode_proof(&latest_proof);
        self.adapter.insert(StorageCategory::Block, key, val)
    }

    /// Reads back the latest finality proof.
    pub fn get_latest_proof(&self) -> (r: Result<Proof, StorageError>)
        ensures
            r matches Ok(p) ==> spec_get(
                self.contents(StorageCategory::Block),
                spec_key_latest_proof(),
            ) == Some(spec_encode_proof(p)),
            (r matches Err(e) && e is NotFound) ==> !self.contents(
                StorageCategory::Block,
            ).contains_key(spec_key_latest_proof()),
            (r matches Err(e) && e is Codec) ==> (self.contents(
                StorageCategory::Block,
            ).contains_key(spec_key_latest_proof()) && self.contents(
                StorageCategory::Block,
            )[spec_key_latest_proof()].len() != proof_enc_len()),
            r matches Err(e) ==> (e is NotFound || e is Codec || e is CategoryNotFound
                || e is Backend),
    {
        let key = key_latest_proof();
        match self.adapter.get(StorageCategory::Block, &key) {
            Ok(Some(v)) => decode_proof(&v),
            Ok(None) => Err(StorageError::NotFound),
            Err(e) => Err(e),
        }
    }

    /// Stores the consensus write-ahead-log blob, overwriting the previous
    /// one. The blob is opaque: it is stored byte for byte. A failed update
    /// leaves every category as it was.
    pub fn update_overlord_wal(&mut self, info: Vec<u8>) -> (r: Result<(), StorageError>)
        ensures
            r is Ok ==> final(self).contents(StorageCategory::Wal) == old(self).contents(
                StorageCategory::Wal,
            ).insert(spec_key_wal(), info@),
            r is Ok ==> forall|c2: StorageCategory|
                c2 != StorageCategory::Wal ==> final(self).contents(c2) == old(self).contents(c2),
            r is Err ==> forall|c2: StorageCategory|
                final(self).contents(c2) == old(self).contents(c2),
            r matches Err(e) ==> (e is CategoryNotFound || e is Backend),
    {
        let key = key_wal();
        self.adapter.insert(StorageCategory::Wal, key, info)
    }

    /// Reads back the consensus write-ahead-log blob, byte for byte.
    pub fn load_overlord_wal(&self) -> (r: Result<Vec<u8>, StorageError>)
        ensures
            r matches Ok(v) ==> spec_get(self.contents(StorageCategory::Wal), spec_key_wal())
                == Some(v@),
            (r matches Err(e) && e is NotFound) ==> !self.contents(
                StorageCategory::Wal,
            ).contains_key(spec_key_wal()),
            r matches Err(e) ==> (e is NotFound || e is CategoryNotFound || e is Backend),
    {
        let key = key_wal();
        match self.adapter.get(StorageCategory::Wal, &key) {
            Ok(Some(v)) => Ok(v),
            Ok(None) => Err(StorageError::NotFound),
            Err(e) => Err(e),
        }
    }
}

} // verus!
