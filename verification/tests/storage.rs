//! Scenario tests for the typed storage facade over the in-memory backend.

use chain_storage::adapter::memory::MemoryAdapter;
use chain_storage::types::{Block, BlockHeader, Proof, Receipt, SignedTransaction};
use chain_storage::ImplStorage;

/// Deterministic pseudo-random bytes, varied by seed.
fn get_random_bytes(seed: u64, len: usize) -> Vec<u8> {
    let mut state = seed.wrapping_mul(6364136223846793005).wrapping_add(1442695040888963407);
    let mut out = Vec::with_capacity(len);
    for _ in 0..len {
        state ^= state << 13;
        state ^= state >> 7;
        state ^= state << 17;
        out.push((state >> 24) as u8);
    }
    out
}

/// Folds arbitrary bytes into a 32-byte digest value.
fn digest(bytes: &[u8]) -> chain_storage::types::Hash {
    let mut acc = [0u8; 32];
    for (i, b) in bytes.iter().enumerate() {
        let j = i % 32;
        acc[j] = acc[j].wrapping_mul(31).wrapping_add(*b).wrapping_add(i as u8);
    }
    chain_storage::types::Hash::from_bytes(acc.to_vec()).unwrap()
}

fn mock_block(height: u64, order_hash: chain_storage::types::Hash) -> Block {
    let mut tag = height.to_be_bytes().to_vec();
    tag.extend_from_slice(order_hash.as_bytes());
    Block {
        header: BlockHeader {
            height,
            prev_hash: order_hash,
        },
        hash: digest(&tag),
    }
}

fn mock_receipt(tx_hash: chain_storage::types::Hash) -> Receipt {
    Receipt { tx_hash }
}

fn mock_signed_tx(tx_hash: chain_storage::types::Hash) -> SignedTransaction {
    SignedTransaction { tx_hash }
}

fn mock_proof(block_hash: chain_storage::types::Hash) -> Proof {
    Proof {
        height: 0,
        block_hash,
    }
}

#[test]
fn test_storage_block_insert() {
    let mut storage = ImplStorage::new(MemoryAdapter::new());

    let height = 100;
    let block = mock_block(height, digest(&get_random_bytes(1, 10)));
    let block_hash = block.hash.clone();

    storage.insert_block(block).unwrap();

    let block = storage.get_latest_block().unwrap();
    assert_eq!(height, block.header.height);

    let block = storage.get_block_by_height(height).unwrap();
    assert_eq!(height, block.header.height);

    let block = storage.get_block_by_hash(block_hash).unwrap();
    assert_eq!(height, block.header.height);
}

#[test]
fn test_storage_receipts_insert() {
    let mut storage = ImplStorage::new(MemoryAdapter::new());

    let mut receipts = Vec::new();
    let mut hashes = Vec::new();

    for i in 0..10 {
        let tx_hash = digest(&get_random_bytes(i, 10));
        hashes.push(tx_hash.clone());
        let receipt = mock_receipt(tx_hash.clone());
        receipts.push(receipt);
    }

    storage.insert_receipts(receipts.clone()).unwrap();
    let receipts_2 = storage.get_receipts(hashes).unwrap();

    for i in 0..10 {
        assert_eq!(
            receipts.get(i).unwrap().tx_hash,
            receipts_2.get(i).unwrap().tx_hash
        );
    }
}

#[test]
fn test_storage_transactions_insert() {
    let mut storage = ImplStorage::new(MemoryAdapter::new());

    let mut transactions = Vec::new();
    let mut hashes = Vec::new();

    for i in 0..10 {
        let tx_hash = digest(&get_random_bytes(i + 100, 10));
        hashes.push(tx_hash.clone());
        let transaction = mock_signed_tx(tx_hash.clone());
        transactions.push(transaction);
    }

    storage.insert_transactions(transactions.clone()).unwrap();
    let transactions_2 = storage.get_transactions(hashes).unwrap();

    for i in 0..10 {
        assert_eq!(
            transactions.get(i).unwrap().tx_hash,
            transactions_2.get(i).unwrap().tx_hash
        );
    }
}

#[test]
fn test_storage_latest_proof_insert() {
    let mut storage = ImplStorage::new(MemoryAdapter::new());

    let block_hash = digest(&get_random_bytes(7, 10));
    let proof = mock_proof(block_hash);

    storage.update_latest_proof(proof.clone()).unwrap();
    let proof_2 = storage.get_latest_proof().unwrap();

    assert_eq!(proof.block_hash, proof_2.block_hash);
}

#[test]
fn test_storage_wal_insert() {
    let mut storage = ImplStorage::new(MemoryAdapter::new());

    let info = get_random_bytes(9, 64);
    storage.update_overlord_wal(info.clone()).unwrap();
    let info_2 = storage.load_overlord_wal().unwrap();
    assert_eq!(info, info_2);
}

#[test]
fn facade_get_on_empty_store_is_not_found() {
    let storage = ImplStorage::new(MemoryAdapter::new());
    assert!(matches!(
        storage.get_latest_block(),
        Err(chain_storage::errors::StorageError::NotFound)
    ));
    assert!(matches!(
        storage.get_block_by_height(5),
        Err(chain_storage::errors::StorageError::NotFound)
    ));
    assert!(matches!(
        storage.get_latest_proof(),
        Err(chain_storage::errors::StorageError::NotFound)
    ));
    assert!(matches!(
        storage.load_overlord_wal(),
        Err(chain_storage::errors::StorageError::NotFound)
    ));
}

#[test]
fn facade_get_receipts_missing_hash_is_not_found() {
    let mut storage = ImplStorage::new(MemoryAdapter::new());
    let present = digest(&get_random_bytes(21, 10));
    storage
        .insert_receipts(vec![mock_receipt(present.clone())])
        .unwrap();
    let absent = digest(&get_random_bytes(22, 10));
    assert!(matches!(
        storage.get_receipts(vec![present, absent]),
        Err(chain_storage::errors::StorageError::NotFound)
    ));
}

#[test]
fn facade_second_block_replaces_latest() {
    let mut storage = ImplStorage::new(MemoryAdapter::new());
    let b1 = mock_block(1, digest(&get_random_bytes(31, 10)));
    let b2 = mock_block(2, digest(&get_random_bytes(32, 10)));
    storage.insert_block(b1).unwrap();
    storage.insert_block(b2).unwrap();
    let latest = storage.get_latest_block().unwrap();
    assert_eq!(2, latest.header.height);
    // Both blocks stay reachable by height.
    assert_eq!(1, storage.get_block_by_height(1).unwrap().header.height);
    assert_eq!(2, storage.get_block_by_height(2).unwrap().header.height);
}

#[test]
fn facade_proof_overwrite_returns_second() {
    let mut storage = ImplStorage::new(MemoryAdapter::new());
    let h1 = digest(&get_random_bytes(41, 10));
    let h2 = digest(&get_random_bytes(42, 10));
    storage.update_latest_proof(mock_proof(h1)).unwrap();
    storage.update_latest_proof(mock_proof(h2.clone())).unwrap();
    let p = storage.get_latest_proof().unwrap();
    assert_eq!(h2, p.block_hash);
}
