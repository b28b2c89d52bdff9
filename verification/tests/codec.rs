//! Exact-value tests for the byte codecs and the schema key encodings.

use chain_storage::codec;
use chain_storage::types::{Block, BlockHeader, Proof, Receipt, SignedTransaction};

fn hash_of(byte: u8) -> chain_storage::types::Hash {
    chain_storage::types::Hash::from_bytes(vec![byte; 32]).unwrap()
}

#[test]
fn key_block_by_height_is_big_endian() {
    assert_eq!(vec![0, 0, 0, 0, 0, 0, 0, 100], codec::key_block_by_height(100));
    assert_eq!(
        vec![0, 0, 0, 1, 0, 0, 0, 0],
        codec::key_block_by_height(1 << 32)
    );
    assert_eq!(vec![0xff; 8], codec::key_block_by_height(u64::MAX));
}

#[test]
fn singleton_keys_have_distinct_lengths() {
    assert_eq!(1, codec::key_latest_block().len());
    assert_eq!(2, codec::key_latest_proof().len());
    assert_eq!(8, codec::key_block_by_height(0).len());
    assert_eq!(32, codec::key_block_by_hash(&hash_of(3)).len());
    assert_eq!(1, codec::key_wal().len());
}

#[test]
fn block_codec_round_trip_exact() {
    let b = Block {
        header: BlockHeader {
            height: 258,
            prev_hash: hash_of(0),
        },
        hash: hash_of(1),
    };
    let enc = codec::encode_block(&b);
    let mut expected = vec![0, 0, 0, 0, 0, 0, 1, 2];
    expected.extend_from_slice(&[0u8; 32]);
    expected.extend_from_slice(&[1u8; 32]);
    assert_eq!(expected, enc);
    let back = codec::decode_block(&enc).unwrap();
    assert_eq!(258, back.header.height);
    assert_eq!(hash_of(0), back.header.prev_hash);
    assert_eq!(hash_of(1), back.hash);
}

#[test]
fn block_decode_wrong_length_is_codec_error() {
    assert!(matches!(
        codec::decode_block(&vec![0; 71]),
        Err(chain_storage::errors::StorageError::Codec)
    ));
    assert!(matches!(
        codec::decode_block(&Vec::new()),
        Err(chain_storage::errors::StorageError::Codec)
    ));
}

#[test]
fn receipt_codec_round_trip() {
    let r = Receipt { tx_hash: hash_of(7) };
    let enc = codec::encode_receipt(&r);
    assert_eq!(vec![7u8; 32], enc);
    let back = codec::decode_receipt(&enc).unwrap();
    assert_eq!(hash_of(7), back.tx_hash);
    assert!(matches!(
        codec::decode_receipt(&vec![7; 31]),
        Err(chain_storage::errors::StorageError::Codec)
    ));
}

#[test]
fn transaction_codec_round_trip() {
    let t = SignedTransaction { tx_hash: hash_of(8) };
    let enc = codec::encode_transaction(&t);
    assert_eq!(vec![8u8; 32], enc);
    let back = codec::decode_transaction(&enc).unwrap();
    assert_eq!(hash_of(8), back.tx_hash);
    assert!(matches!(
        codec::decode_transaction(&vec![8; 33]),
        Err(chain_storage::errors::StorageError::Codec)
    ));
}

#[test]
fn proof_codec_round_trip_exact() {
    let p = Proof {
        height: 5,
        block_hash: hash_of(9),
    };
    let enc = codec::encode_proof(&p);
    let mut expected = vec![0, 0, 0, 0, 0, 0, 0, 5];
    expected.extend_from_slice(&[9u8; 32]);
    assert_eq!(expected, enc);
    let back = codec::decode_proof(&enc).unwrap();
    assert_eq!(5, back.height);
    assert_eq!(hash_of(9), back.block_hash);
    assert!(matches!(
        codec::decode_proof(&vec![9; 39]),
        Err(chain_storage::errors::StorageError::Codec)
    ));
}

#[test]
fn error_messages_name_the_failure() {
    assert_eq!(
        "category not found",
        chain_storage::errors::StorageError::CategoryNotFound.message()
    );
    assert_eq!("codec failed", chain_storage::errors::StorageError::Codec.message());
    assert_eq!(
        "disk full",
        chain_storage::errors::StorageError::Backend(String::from("disk full")).message()
    );
    assert_eq!(
        "batch length dont match",
        chain_storage::errors::StorageError::BatchLengthMismatch.message()
    );
    assert_eq!(
        "value not found",
        chain_storage::errors::StorageError::NotFound.message()
    );
}

#[test]
fn hash_rejects_wrong_length() {
    assert!(chain_storage::types::Hash::from_bytes(vec![0; 32]).is_ok());
    assert!(matches!(
        chain_storage::types::Hash::from_bytes(vec![0; 31]),
        Err(chain_storage::errors::StorageError::Codec)
    ));
    assert!(matches!(
        chain_storage::types::Hash::from_bytes(Vec::new()),
        Err(chain_storage::errors::StorageError::Codec)
    ));
}
